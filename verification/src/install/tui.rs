//! What the interactive installer accepts as an answer, and what it makes of
//! the answers.

use crate::install::{is_exe, reads_exe};
use crate::text::{
    chars_of, lowercase_of, parse_integer, parse_unsigned, pieces_of, split_on, split_ranges,
    to_lowercase, trim_range, trimmed,
};
use vstd::prelude::*;
use vstd::string::*;

verus! {

/// How the program is to be started with the system.
#[derive(Clone, Copy, Debug, PartialEq, Eq, Structural)]
pub enum StartupChoice {
    /// As a service, which needs the renderer's own service.
    Service,
    /// As a scheduled task at logon.
    ScheduledTask,
    /// Not at all for now: the user enables the renderer's service first
    /// and runs the installer again.
    EnableServiceAndRetry,
}

/// What the entry `selected` of the startup menu means. With the renderer's
/// service present the menu offers the service first and the scheduled task
/// second; without it, the scheduled task first and the retry second.
pub open spec fn startup_choice_of(service_present: bool, selected: int) -> StartupChoice {
    if !service_present && selected == 1 {
        StartupChoice::EnableServiceAndRetry
    } else if service_present && selected == 0 {
        StartupChoice::Service
    } else {
        StartupChoice::ScheduledTask
    }
}

/// See [`startup_choice_of`].
pub fn startup_choice(service_present: bool, selected: usize) -> (choice: StartupChoice)
    ensures
        choice == startup_choice_of(service_present, selected as int),
{
    if !service_present && selected == 1 {
        StartupChoice::EnableServiceAndRetry
    } else if service_present && selected == 0 {
        StartupChoice::Service
    } else {
        StartupChoice::ScheduledTask
    }
}

/// A verdict with its message as a sequence of characters.
pub open spec fn verdict_of(result: Result<(), String>) -> Result<(), Seq<char>> {
    match result {
        Ok(()) => Ok(()),
        Err(message) => Err(message@),
    }
}

/// Whether `c` may not stand in the name of a directory.
pub open spec fn forbidden_in_path(c: char) -> bool {
    c == '<' || c == '>' || c == '"' || c == '|' || c == '?' || c == '*'
}

/// The verdict on a directory to install into, the first objection that
/// applies: nothing was entered; the path ends like a program; it holds a
/// character that no directory name may hold; a file stands where it points.
///
/// `extension` is the extension of the path where it has one, and `is_file`
/// says whether a file stands where the path points.
pub open spec fn install_dir_verdict(
    input: Seq<char>,
    extension: Option<Seq<char>>,
    is_file: bool,
) -> Result<(), Seq<char>> {
    let path = trimmed(input);
    if path.len() == 0 {
        Err("Please enter a directory path"@)
    } else if extension is Some && is_exe(extension->0) {
        Err("This looks like a file path (.exe). Please provide a folder"@)
    } else if exists|i: int| 0 <= i < path.len() && forbidden_in_path(#[trigger] path[i]) {
        Err("Path contains invalid Windows characters: <>:\"|?*"@)
    } else if is_file {
        Err("Path points to a file; please provide a directory"@)
    } else {
        Ok(())
    }
}

/// The verdict on a threshold: a whole number from 0 to 100, with or without
/// white space around it.
pub open spec fn threshold_verdict(input: Seq<char>) -> Result<(), Seq<char>> {
    let number = trimmed(input);
    if number.len() == 0 {
        Err("Please enter a number between 0 and 100"@)
    } else if parse_integer(number, false, 0, 100) is Some {
        Ok(())
    } else {
        Err("Threshold must be an integer between 0 and 100"@)
    }
}

/// The verdict on an update rate: a whole number of milliseconds from 100 to
/// 60000, with or without white space around it.
pub open spec fn update_rate_verdict(input: Seq<char>) -> Result<(), Seq<char>> {
    if parse_integer(trimmed(input), false, 100, 60000) is Some {
        Ok(())
    } else {
        Err("Enter an integer between 100 and 60000 ms"@)
    }
}

/// The verdict on one entry of a list of monitors: a whole number from 1 on
/// that fits 32 bits, with or without white space around it.
pub open spec fn monitor_entry_verdict(entry: Seq<char>) -> Result<(), Seq<char>> {
    let number = trimmed(entry);
    if number.len() == 0 {
        Err("Invalid list: contains empty entries"@)
    } else if parse_integer(number, false, 1, u32::MAX as int) is Some {
        Ok(())
    } else {
        Err("'"@ + number + "' is not a valid monitor number (must be >= 1)"@)
    }
}

/// The verdict on the entries of a list of monitors: that on the first entry
/// that is objected to, if there is one.
pub open spec fn monitor_entries_verdict(entries: Seq<Seq<char>>) -> Result<(), Seq<char>>
    decreases entries.len(),
{
    if entries.len() == 0 {
        Ok(())
    } else {
        match monitor_entries_verdict(entries.drop_last()) {
            Ok(()) => monitor_entry_verdict(entries.last()),
            Err(message) => Err(message),
        }
    }
}

/// The verdict on a choice of monitors: `all` in any mix of cases, or a list
/// of monitor numbers separated by commas. White space around the whole and
/// around each entry does not count.
pub open spec fn monitors_verdict(input: Seq<char>) -> Result<(), Seq<char>> {
    let choice = lowercase_of(trimmed(input));
    if choice == "all"@ {
        Ok(())
    } else if choice.len() == 0 {
        Err("Enter 'all' or a list like 1,2,3"@)
    } else {
        monitor_entries_verdict(split_on(choice, ','))
    }
}

/// Calls `Path::extension` of the standard library on `path` and hands the
/// extension out as text. How a path falls into its parts depends on the
/// system that the program runs on, so nothing is claimed of the result.
#[verifier::external_body]
fn path_extension(path: &str) -> (extension: Option<String>) {
    match std::path::Path::new(path).extension() {
        Some(extension) => Some(extension.to_string_lossy().into_owned()),
        None => None,
    }
}

/// See [`install_dir_verdict`].
#[verifier::loop_isolation(false)]
pub fn check_install_dir(input: &str, extension: Option<&str>, is_file: bool) -> (result: Result<
    (),
    String,
>)
    ensures
        verdict_of(result) == install_dir_verdict(
            input@,
            match extension {
                Some(text) => Some(text@),
                None => None,
            },
            is_file,
        ),
{
    let text = chars_of(input);
    let (from, to) = trim_range(&text, 0, text.len());
    let ghost path = trimmed(input@);
    proof {
        assert(text@.subrange(0, text.len() as int) =~= text@);
    }
    if from == to {
        return Err(String::from_str("Please enter a directory path"));
    }
    let like_program = match extension {
        Some(ending) => reads_exe(ending),
        None => false,
    };
    if like_program {
        return Err(String::from_str("This looks like a file path (.exe). Please provide a folder"));
    }
    let mut i: usize = from;
    while i < to
        invariant
            from <= i <= to <= text.len(),
            path == text@.subrange(from as int, to as int),
            forall|k: int| 0 <= k < i - from ==> !forbidden_in_path(#[trigger] path[k]),
        decreases to - i,
    {
        let c = text[i];
        assert(path[i - from] == c);
        if c == '<' || c == '>' || c == '"' || c == '|' || c == '?' || c == '*' {
            assert(forbidden_in_path(path[i - from]));
            return Err(String::from_str("Path contains invalid Windows characters: <>:\"|?*"));
        }
        i += 1;
    }
    if is_file {
        Err(String::from_str("Path points to a file; please provide a directory"))
    } else {
        Ok(())
    }
}

/// The verdict on a directory to install into, with the extension of the
/// path as the system sees it; `is_file` says whether a file stands where
/// the path points. For what is accepted see [`install_dir_verdict`].
pub fn validate_install_dir(input: &str, is_file: bool) -> (result: Result<(), String>)
    ensures
        exists|extension: Option<Seq<char>>|
            verdict_of(result) == #[trigger] install_dir_verdict(input@, extension, is_file),
{
    let text = chars_of(input);
    let (from, to) = trim_range(&text, 0, text.len());
    proof {
        assert(text@.subrange(0, text.len() as int) =~= text@);
    }
    let path = input.substring_char(from, to);
    match path_extension(path) {
        Some(extension) => {
            let result = check_install_dir(input, Some(extension.as_str()), is_file);
            assert(verdict_of(result) == install_dir_verdict(input@, Some(extension@), is_file));
            result
        },
        None => {
            let result = check_install_dir(input, None, is_file);
            assert(verdict_of(result) == install_dir_verdict(input@, None, is_file));
            result
        },
    }
}

/// See [`threshold_verdict`].
pub fn validate_threshold(input: &str) -> (result: Result<(), String>)
    ensures
        verdict_of(result) == threshold_verdict(input@),
{
    let text = chars_of(input);
    let (from, to) = trim_range(&text, 0, text.len());
    proof {
        assert(text@.subrange(0, text.len() as int) =~= text@);
    }
    if from == to {
        return Err(String::from_str("Please enter a number between 0 and 100"));
    }
    match parse_unsigned(&text, from, to, 100) {
        Some(_) => Ok(()),
        None => Err(String::from_str("Threshold must be an integer between 0 and 100")),
    }
}

/// See [`update_rate_verdict`].
pub fn validate_update_rate(input: &str) -> (result: Result<(), String>)
    ensures
        verdict_of(result) == update_rate_verdict(input@),
{
    let text = chars_of(input);
    let (from, to) = trim_range(&text, 0, text.len());
    proof {
        assert(text@.subrange(0, text.len() as int) =~= text@);
    }
    match parse_unsigned(&text, from, to, 60000) {
        Some(rate) => {
            if rate >= 100 {
                Ok(())
            } else {
                Err(String::from_str("Enter an integer between 100 and 60000 ms"))
            }
        },
        None => Err(String::from_str("Enter an integer between 100 and 60000 ms")),
    }
}

/// See [`monitors_verdict`].
#[verifier::loop_isolation(false)]
pub fn validate_monitors(input: &str) -> (result: Result<(), String>)
    ensures
        verdict_of(result) == monitors_verdict(input@),
{
    let text = chars_of(input);
    let (from, to) = trim_range(&text, 0, text.len());
    proof {
        assert(text@.subrange(0, text.len() as int) =~= text@);
    }
    let choice = to_lowercase(input.substring_char(from, to));
    if choice == String::from_str("all") {
        return Ok(());
    }
    let lower = chars_of(choice.as_str());
    if lower.len() == 0 {
        return Err(String::from_str("Enter 'all' or a list like 1,2,3"));
    }
    let ranges = split_ranges(&lower, ',');
    let ghost entries = split_on(lower@, ',');
    let mut i: usize = 0;
    proof {
        assert(entries.take(0) =~= Seq::empty());
    }
    while i < ranges.len()
        invariant
            i <= ranges.len(),
            lower@ == choice@,
            entries == split_on(lower@, ','),
            entries == pieces_of(lower@, ranges@),
            forall|k: int|
                0 <= k < ranges.len() ==> (#[trigger] ranges[k]).0 <= ranges[k].1 <= lower.len(),
            monitor_entries_verdict(entries.take(i as int)) is Ok,
        decreases ranges.len() - i,
    {
        let range = ranges[i];
        let (start, end) = trim_range(&lower, range.0, range.1);
        proof {
            let next = entries.take(i + 1);
            assert(next.drop_last() =~= entries.take(i as int));
            assert(next.last() == entries[i as int]);
            assert(entries[i as int] == lower@.subrange(range.0 as int, range.1 as int));
            if i + 1 < ranges.len() {
            } else {
                assert(entries.take(ranges.len() as int) =~= entries);
            }
        }
        let ghost number = trimmed(entries[i as int]);
        assert(number == lower@.subrange(start as int, end as int));
        if start == end {
            let message = String::from_str("Invalid list: contains empty entries");
            proof {
                assert(number.len() == 0);
                assert(monitor_entry_verdict(entries[i as int]) == Err::<(), Seq<char>>(message@));
                lemma_first_objection_stands(entries, i as int);
            }
            return Err(message);
        }
        let accepted = match parse_unsigned(&lower, start, end, 0xffff_ffff) {
            Some(value) => value >= 1,
            None => false,
        };
        assert(accepted == (parse_integer(number, false, 1, u32::MAX as int) is Some));
        if !accepted {
            let entry = choice.as_str().substring_char(start, end);
            let message = String::from_str("'").concat(entry).concat(
                "' is not a valid monitor number (must be >= 1)",
            );
            proof {
                assert(entry@ == number);
                assert(message@ == "'"@ + number
                    + "' is not a valid monitor number (must be >= 1)"@);
                assert(monitor_entry_verdict(entries[i as int]) == Err::<(), Seq<char>>(message@));
                lemma_first_objection_stands(entries, i as int);
            }
            return Err(message);
        }
        i += 1;
    }
    proof {
        assert(entries.take(ranges.len() as int) =~= entries);
    }
    Ok(())
}

/// The verdict on a list is that on its first entry that is objected to.
proof fn lemma_first_objection_stands(entries: Seq<Seq<char>>, i: int)
    requires
        0 <= i < entries.len(),
        monitor_entries_verdict(entries.take(i)) is Ok,
        monitor_entry_verdict(entries[i]) is Err,
    ensures
        monitor_entries_verdict(entries) == monitor_entry_verdict(entries[i]),
    decreases entries.len() - i,
{
    let upto = entries.take(i + 1);
    assert(upto.drop_last() =~= entries.take(i));
    assert(upto.last() == entries[i]);
    lemma_objection_stands(entries, i + 1);
}

/// Once a start of a list is objected to, the whole list is, for the same
/// reason.
proof fn lemma_objection_stands(entries: Seq<Seq<char>>, k: int)
    requires
        0 <= k <= entries.len(),
        monitor_entries_verdict(entries.take(k)) is Err,
    ensures
        monitor_entries_verdict(entries) == monitor_entries_verdict(entries.take(k)),
    decreases entries.len() - k,
{
    if k == entries.len() {
        assert(entries.take(k) =~= entries);
    } else {
        let longer = entries.take(k + 1);
        assert(longer.drop_last() =~= entries.take(k));
        lemma_objection_stands(entries, k + 1);
    }
}

} // verus!
