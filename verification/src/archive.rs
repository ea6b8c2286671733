//! Where the record of a puzzle is kept: the archive holds one folder for
//! each hundred ids and, in it, one file for each id.

use vstd::prelude::*;
use vstd::string::StringExecFns;
use crate::puzzle::LoadError;

verus! {

/// Number of ids that share a folder.
pub const FOLDER_SIZE: u32 = 100;

/// Number of puzzles in the archive. Their ids run from 1 to this.
pub const PUZZLE_COUNT: u32 = 750;

/// The character of a decimal digit.
pub open spec fn digit_char(d: int) -> char {
    if d == 0 {
        '0'
    } else if d == 1 {
        '1'
    } else if d == 2 {
        '2'
    } else if d == 3 {
        '3'
    } else if d == 4 {
        '4'
    } else if d == 5 {
        '5'
    } else if d == 6 {
        '6'
    } else if d == 7 {
        '7'
    } else if d == 8 {
        '8'
    } else {
        '9'
    }
}

/// The decimal digits of `n`, without leading zeros.
pub open spec fn decimal(n: nat) -> Seq<char>
    decreases n,
{
    if n < 10 {
        seq![digit_char(n as int)]
    } else {
        decimal(n / 10).push(digit_char((n % 10) as int))
    }
}

/// The decimal digits of `n`, with zeros in front up to three digits.
pub open spec fn decimal3(n: nat) -> Seq<char> {
    if n < 10 {
        seq!['0', '0'] + decimal(n)
    } else if n < 100 {
        seq!['0'] + decimal(n)
    } else {
        decimal(n)
    }
}

/// The folder of a puzzle: ids 1 to 100 are in folder 1, 101 to 200 in
/// folder 2, and so on.
pub open spec fn folder_of(puzzle_id: u32) -> nat {
    ((puzzle_id - 1) / (FOLDER_SIZE as int) + 1) as nat
}

/// The path of the record of a puzzle: `archive/`, its folder, `/`, its id
/// in at least three digits, `.json`.
pub open spec fn path_of(puzzle_id: u32) -> Seq<char> {
    seq!['a', 'r', 'c', 'h', 'i', 'v', 'e', '/'] + decimal(folder_of(puzzle_id)) + seq!['/']
        + decimal3(puzzle_id as nat) + seq!['.', 'j', 's', 'o', 'n']
}

/// The folder of the puzzle `puzzle_id`.
fn archive_folder(puzzle_id: u32) -> (folder: u32)
    requires
        puzzle_id >= 1,
    ensures
        folder == folder_of(puzzle_id),
{
    (puzzle_id - 1) / FOLDER_SIZE + 1
}

/// The path of the record of the puzzle `puzzle_id`. There is no record
/// for the id 0.
pub fn archive_path(puzzle_id: u32) -> (result: Result<String, LoadError>)
    ensures
        puzzle_id == 0 ==> result == Err::<String, LoadError>(LoadError::NotFound),
        puzzle_id >= 1 ==> result is Ok && result->Ok_0@ == path_of(puzzle_id),
{
    if puzzle_id == 0 {
        return Err(LoadError::NotFound);
    }
    let mut path = String::new();
    proof {
        reveal_strlit("archive/");
        reveal_strlit("/");
        reveal_strlit(".json");
        reveal_strlit("00");
        reveal_strlit("0");
    }
    path.append("archive/");
    assert(path@ =~= seq!['a', 'r', 'c', 'h', 'i', 'v', 'e', '/']);
    append_decimal(&mut path, archive_folder(puzzle_id));
    path.append("/");
    assert("/"@ =~= seq!['/']);
    if puzzle_id < 10 {
        path.append("00");
        assert("00"@ =~= seq!['0', '0']);
    } else if puzzle_id < 100 {
        path.append("0");
        assert("0"@ =~= seq!['0']);
    }
    append_decimal(&mut path, puzzle_id);
    path.append(".json");
    assert(".json"@ =~= seq!['.', 'j', 's', 'o', 'n']);
    assert(path@ =~= path_of(puzzle_id));
    Ok(path)
}

/// Writes the decimal digits of `n` at the end of `text`.
fn append_decimal(text: &mut String, n: u32)
    ensures
        final(text)@ == old(text)@ + decimal(n as nat),
    decreases n,
{
    if n >= 10 {
        append_decimal(text, n / 10);
    }
    let digit = digit_text(n % 10);
    text.append(digit);
    assert(text@ =~= old(text)@ + decimal(n as nat));
}

/// The text of one decimal digit.
fn digit_text(d: u32) -> (text: &'static str)
    requires
        d < 10,
    ensures
        text@ == seq![digit_char(d as int)],
{
    proof {
        reveal_strlit("0");
        reveal_strlit("1");
        reveal_strlit("2");
        reveal_strlit("3");
        reveal_strlit("4");
        reveal_strlit("5");
        reveal_strlit("6");
        reveal_strlit("7");
        reveal_strlit("8");
        reveal_strlit("9");
    }
    let text = if d == 0 {
        "0"
    } else if d == 1 {
        "1"
    } else if d == 2 {
        "2"
    } else if d == 3 {
        "3"
    } else if d == 4 {
        "4"
    } else if d == 5 {
        "5"
    } else if d == 6 {
        "6"
    } else if d == 7 {
        "7"
    } else if d == 8 {
        "8"
    } else {
        "9"
    };
    assert(text@ =~= seq![digit_char(d as int)]);
    text
}

} // verus!
