//! Setting the program up on a machine: the command line under which it is
//! started with the system.

pub mod tui;

use crate::text::{chars_of, is_whitespace, replace_char, replaced, whitespace};
use vstd::prelude::*;
use vstd::string::*;

verus! {

/// Whether `c` has a meaning of its own on a command line.
pub open spec fn is_special(c: char) -> bool {
    c == '"' || c == '^' || c == '&' || c == '|' || c == '>' || c == '<'
}

/// Whether an argument has to stand in quotes: it holds white space or a
/// character with a meaning of its own.
pub open spec fn needs_quotes(argument: Seq<char>) -> bool {
    exists|i: int|
        0 <= i < argument.len() && (whitespace(#[trigger] argument[i]) || is_special(argument[i]))
}

/// An argument as it stands on a command line: as it is, or, where it needs
/// quotes, between two of them and with a backslash before each quote of
/// its own.
pub open spec fn quoted(argument: Seq<char>) -> Seq<char> {
    if needs_quotes(argument) {
        "\""@ + replaced(argument, '"', "\\\""@) + "\""@
    } else {
        argument
    }
}

/// The command line of a program and its arguments: each of them quoted
/// where it needs to be, with one space between each two.
pub open spec fn command_line_of(program: Seq<char>, arguments: Seq<Seq<char>>) -> Seq<char>
    decreases arguments.len(),
{
    if arguments.len() == 0 {
        quoted(program)
    } else {
        command_line_of(program, arguments.drop_last()) + " "@ + quoted(arguments.last())
    }
}

/// See [`quoted`].
pub fn quote_arg(argument: &str) -> (out: String)
    ensures
        out@ == quoted(argument@),
{
    let chars = chars_of(argument);
    let mut i: usize = 0;
    let mut found = false;
    while i < chars.len()
        invariant
            i <= chars.len(),
            chars@ == argument@,
            found ==> needs_quotes(argument@),
            !found ==> forall|k: int|
                0 <= k < i ==> !(whitespace(#[trigger] chars@[k]) || is_special(chars@[k])),
        decreases chars.len() - i,
    {
        let c = chars[i];
        if is_whitespace(c) || c == '"' || c == '^' || c == '&' || c == '|' || c == '>' || c
            == '<' {
            assert(whitespace(argument@[i as int]) || is_special(argument@[i as int]));
            found = true;
        }
        i += 1;
    }
    if found {
        let mut out = String::from_str("\"");
        let escaped = replace_char(argument, '"', "\\\"");
        out.append(escaped.as_str());
        out.append("\"");
        out
    } else {
        let out = String::from_str(argument);
        out
    }
}

/// See [`command_line_of`].
pub fn build_command_line(program: &str, arguments: &Vec<String>) -> (line: String)
    ensures
        line@ == command_line_of(program@, arguments.deep_view()),
{
    let mut line = quote_arg(program);
    let ghost all = arguments.deep_view();
    let mut i: usize = 0;
    proof {
        assert(all.take(0) =~= Seq::empty());
    }
    while i < arguments.len()
        invariant
            i <= arguments.len(),
            all == arguments.deep_view(),
            line@ == command_line_of(program@, all.take(i as int)),
        decreases arguments.len() - i,
    {
        proof {
            let next = all.take(i + 1);
            assert(next.drop_last() =~= all.take(i as int));
            assert(next.last() == arguments@[i as int]@);
        }
        line.append(" ");
        let argument = quote_arg(arguments[i].as_str());
        line.append(argument.as_str());
        i += 1;
    }
    proof {
        assert(all.take(arguments.len() as int) =~= all);
    }
    line
}

/// An option of the installer, which the installed program is not started
/// with.
#[derive(Clone, Debug, PartialEq, Eq)]
pub struct SkipFlag {
    /// The option as it is written, with its two dashes.
    pub flag: String,
    /// Whether the argument after the option belongs to it.
    pub takes_value: bool,
}

/// A [`SkipFlag`] as a mathematical value.
pub struct SkipFlagView {
    pub flag: Seq<char>,
    pub takes_value: bool,
}

impl View for SkipFlag {
    type V = SkipFlagView;

    open spec fn view(&self) -> SkipFlagView {
        SkipFlagView { flag: self.flag@, takes_value: self.takes_value }
    }
}

/// Whether `argument` is the option itself.
pub open spec fn names(argument: Seq<char>, flag: Seq<char>) -> bool {
    argument == flag
}

/// Whether `argument` is the option with a value attached by `=`.
pub open spec fn assigns(argument: Seq<char>, flag: Seq<char>) -> bool {
    (flag + "="@).is_prefix_of(argument)
}

/// The first of `skip` that `argument` names or assigns, if there is one.
pub open spec fn first_match(argument: Seq<char>, skip: Seq<SkipFlagView>) -> Option<int>
    decreases skip.len(),
{
    if skip.len() == 0 {
        None
    } else {
        match first_match(argument, skip.drop_last()) {
            Some(k) => Some(k),
            None => if names(argument, skip.last().flag) || assigns(argument, skip.last().flag) {
                Some(skip.len() - 1)
            } else {
                None
            },
        }
    }
}

/// How many arguments the option at the head of `arguments` takes up: none
/// if the head is no option of `skip`, two if it names one that takes a
/// value, and one otherwise.
pub open spec fn taken_up(arguments: Seq<Seq<char>>, skip: Seq<SkipFlagView>) -> int
    recommends
        arguments.len() > 0,
{
    match first_match(arguments[0], skip) {
        Some(k) => if names(arguments[0], skip[k].flag) && skip[k].takes_value {
            2
        } else {
            1
        },
        None => 0,
    }
}

/// The arguments without the options of `skip` and their values, in their
/// order.
pub open spec fn passthrough_of(arguments: Seq<Seq<char>>, skip: Seq<SkipFlagView>) -> Seq<
    Seq<char>,
>
    decreases arguments.len(),
{
    if arguments.len() == 0 {
        Seq::empty()
    } else {
        let taken = taken_up(arguments, skip);
        if taken == 0 {
            seq![arguments[0]] + passthrough_of(arguments.drop_first(), skip)
        } else if taken == 2 && arguments.len() >= 2 {
            passthrough_of(arguments.skip(2), skip)
        } else {
            passthrough_of(arguments.drop_first(), skip)
        }
    }
}

/// Whether `argument` is `flag` with a value attached by `=`.
fn assigns_to(argument: &Vec<char>, flag: &Vec<char>) -> (found: bool)
    ensures
        found == assigns(argument@, flag@),
{
    proof {
        reveal_strlit("=");
    }
    let ghost prefix = flag@ + "="@;
    if argument.len() <= flag.len() {
        return false;
    }
    let mut i: usize = 0;
    while i < flag.len()
        invariant
            i <= flag.len() < argument.len(),
            prefix == flag@ + "="@,
            prefix.len() == flag.len() + 1,
            forall|k: int| 0 <= k < i ==> argument@[k] == flag@[k],
        decreases flag.len() - i,
    {
        if argument[i] != flag[i] {
            assert(argument@[i as int] != prefix[i as int]);
            return false;
        }
        i += 1;
    }
    if argument[flag.len()] == '=' {
        assert(argument@.subrange(0, prefix.len() as int) =~= prefix);
        true
    } else {
        assert(argument@[flag.len() as int] != prefix[flag.len() as int]);
        false
    }
}

/// The views of the options.
pub open spec fn flags_of(skip: Seq<SkipFlag>) -> Seq<SkipFlagView> {
    skip.map_values(|flag: SkipFlag| flag@)
}

/// How many arguments the option `argument` takes up; see [`taken_up`].
fn taken_by(argument: &String, skip: &Vec<SkipFlag>) -> (taken: u8)
    ensures
        taken == match first_match(argument@, flags_of(skip@)) {
            Some(k) => if names(argument@, skip@[k]@.flag) && skip@[k].takes_value {
                2int
            } else {
                1int
            },
            None => 0int,
        },
{
    let chars = chars_of(argument.as_str());
    let ghost flags = flags_of(skip@);
    let mut i: usize = 0;
    proof {
        assert(flags.take(0) =~= Seq::empty());
    }
    while i < skip.len()
        invariant
            i <= skip.len(),
            chars@ == argument@,
            flags == flags_of(skip@),
            first_match(argument@, flags.take(i as int)) is None,
        decreases skip.len() - i,
    {
        proof {
            let next = flags.take(i + 1);
            assert(next.drop_last() =~= flags.take(i as int));
            assert(next.last() == skip@[i as int]@);
        }
        let flag = &skip[i];
        let named = *argument == flag.flag;
        let assigned = assigns_to(&chars, &chars_of(flag.flag.as_str()));
        if named || assigned {
            proof {
                lemma_first_match_stands(argument@, flags, i + 1);
            }
            if named && flag.takes_value {
                return 2;
            } else {
                return 1;
            }
        }
        i += 1;
    }
    proof {
        assert(flags.take(skip.len() as int) =~= flags);
    }
    0
}

/// A match among the first options is the match among all of them.
proof fn lemma_first_match_stands(argument: Seq<char>, skip: Seq<SkipFlagView>, k: int)
    requires
        0 <= k <= skip.len(),
        first_match(argument, skip.take(k)) is Some,
    ensures
        first_match(argument, skip) == first_match(argument, skip.take(k)),
    decreases skip.len() - k,
{
    if k == skip.len() {
        assert(skip.take(k) =~= skip);
    } else {
        let longer = skip.take(k + 1);
        assert(longer.drop_last() =~= skip.take(k));
        lemma_first_match_stands(argument, skip, k + 1);
    }
}

/// A match is one of the options, and `argument` names or assigns it.
proof fn lemma_first_match_is_one(argument: Seq<char>, skip: Seq<SkipFlagView>)
    ensures
        first_match(argument, skip) matches Some(k) ==> 0 <= k < skip.len() && (names(
            argument,
            skip[k].flag,
        ) || assigns(argument, skip[k].flag)),
    decreases skip.len(),
{
    if skip.len() > 0 {
        lemma_first_match_is_one(argument, skip.drop_last());
    }
}

/// See [`passthrough_of`].
pub fn filter_passthrough(arguments: &Vec<String>, skip: &Vec<SkipFlag>) -> (out: Vec<String>)
    ensures
        out.deep_view() == passthrough_of(arguments.deep_view(), flags_of(skip@)),
{
    let ghost all = arguments.deep_view();
    let ghost flags = flags_of(skip@);
    let mut out: Vec<String> = Vec::new();
    let mut i: usize = 0;
    proof {
        assert(all.skip(0) =~= all);
        assert(out.deep_view() =~= Seq::empty());
    }
    while i < arguments.len()
        invariant
            i <= arguments.len(),
            all == arguments.deep_view(),
            flags == flags_of(skip@),
            out.deep_view() + passthrough_of(all.skip(i as int), flags) == passthrough_of(
                all,
                flags,
            ),
        decreases arguments.len() - i,
    {
        let ghost rest = all.skip(i as int);
        let ghost before = out.deep_view();
        proof {
            assert(rest[0] == arguments@[i as int]@);
            assert(rest.drop_first() =~= all.skip(i + 1));
        }
        let taken = taken_by(&arguments[i], skip);
        proof {
            lemma_first_match_is_one(rest[0], flags);
            assert(taken == taken_up(rest, flags));
        }
        if taken == 0 {
            out.push(arguments[i].clone());
            proof {
                assert(out.deep_view() =~= before.push(rest[0]));
                assert(out.deep_view() + passthrough_of(all.skip(i + 1), flags) =~= before
                    + passthrough_of(rest, flags));
            }
            i += 1;
        } else if taken == 2 && arguments.len() - i >= 2 {
            proof {
                assert(rest.skip(2) =~= all.skip(i + 2));
            }
            i += 2;
        } else {
            i += 1;
        }
    }
    proof {
        assert(all.skip(arguments.len() as int) =~= Seq::empty());
        assert(out.deep_view() + Seq::<Seq<char>>::empty() =~= out.deep_view());
    }
    out
}

/// Whether `extension` reads `exe` in any mix of cases.
pub open spec fn is_exe(extension: Seq<char>) -> bool {
    &&& extension.len() == 3
    &&& (extension[0] == 'e' || extension[0] == 'E')
    &&& (extension[1] == 'x' || extension[1] == 'X')
    &&& (extension[2] == 'e' || extension[2] == 'E')
}

/// See [`is_exe`].
pub fn reads_exe(extension: &str) -> (exe: bool)
    ensures
        exe == is_exe(extension@),
{
    let chars = chars_of(extension);
    chars.len() == 3 && (chars[0] == 'e' || chars[0] == 'E') && (chars[1] == 'x' || chars[1]
        == 'X') && (chars[2] == 'e' || chars[2] == 'E')
}

/// What is to be made of the place to install into.
#[derive(Clone, Copy, Debug, PartialEq, Eq, Structural)]
pub enum TargetVerdict {
    /// A file stands there; a directory is needed.
    IsFile,
    /// Nothing stands there, and the path ends like a program.
    LooksLikeFile,
    /// A directory stands there or can be made.
    Usable,
}

/// What is to be done about the program's file in the directory.
#[derive(Clone, Copy, Debug, PartialEq, Eq, Structural)]
pub enum CopyDecision {
    /// The same file is there already; nothing is copied.
    Skip,
    /// Another file is there, or one that could not be read; it is removed
    /// and the program copied in its place.
    Replace,
    /// No file is there; the program is copied.
    InstallNew,
}

/// See [`TargetVerdict`]. `extension` is the extension of the path where it
/// has one.
pub open spec fn target_verdict_of(exists: bool, is_file: bool, extension: Option<Seq<char>>)
    -> TargetVerdict {
    if exists {
        if is_file {
            TargetVerdict::IsFile
        } else {
            TargetVerdict::Usable
        }
    } else if extension is Some && is_exe(extension->0) {
        TargetVerdict::LooksLikeFile
    } else {
        TargetVerdict::Usable
    }
}

/// See [`target_verdict_of`].
pub fn judge_target(exists: bool, is_file: bool, extension: Option<&str>) -> (verdict:
    TargetVerdict)
    ensures
        verdict == target_verdict_of(
            exists,
            is_file,
            match extension {
                Some(text) => Some(text@),
                None => None,
            },
        ),
{
    if exists {
        if is_file {
            TargetVerdict::IsFile
        } else {
            TargetVerdict::Usable
        }
    } else {
        let like_program = match extension {
            Some(ending) => reads_exe(ending),
            None => false,
        };
        if like_program {
            TargetVerdict::LooksLikeFile
        } else {
            TargetVerdict::Usable
        }
    }
}

/// The BLAKE3 digest of `data`, 32 bytes, as `blake3::hash` computes it.
pub uninterp spec fn blake3_of(data: Seq<u8>) -> Seq<u8>;

/// Calls `blake3::hash`, the default hash function of the crate, and hands
/// the 32 bytes of its result out. The contract only gives them their name.
#[verifier::external_body]
fn blake3_hash(data: &[u8]) -> (digest: [u8; 32])
    ensures
        digest@ == blake3_of(data@),
{
    *blake3::hash(data).as_bytes()
}

/// The digest by which two files are held to be the same.
pub fn content_digest(data: &[u8]) -> (digest: [u8; 32])
    ensures
        digest@ == blake3_of(data@),
{
    blake3_hash(data)
}

/// See [`CopyDecision`]. The digests are those of the running program and
/// of the file in the directory, `None` where the file could not be read.
pub open spec fn copy_decision_of(
    target_exists: bool,
    source: Option<Seq<u8>>,
    target: Option<Seq<u8>>,
) -> CopyDecision {
    if !target_exists {
        CopyDecision::InstallNew
    } else if source is Some && target is Some && source->0 == target->0 {
        CopyDecision::Skip
    } else {
        CopyDecision::Replace
    }
}

/// Whether two digests are equal.
fn same_digest(one: &[u8; 32], two: &[u8; 32]) -> (same: bool)
    ensures
        same == (one@ == two@),
{
    let mut i: usize = 0;
    while i < 32
        invariant
            i <= 32,
            forall|k: int| 0 <= k < i ==> one@[k] == two@[k],
        decreases 32 - i,
    {
        if one[i] != two[i] {
            return false;
        }
        i += 1;
    }
    assert(one@ =~= two@);
    true
}

/// See [`copy_decision_of`].
pub fn copy_decision(target_exists: bool, source: Option<[u8; 32]>, target: Option<[u8; 32]>) -> (decision:
    CopyDecision)
    ensures
        decision == copy_decision_of(
            target_exists,
            match source {
                Some(digest) => Some(digest@),
                None => None,
            },
            match target {
                Some(digest) => Some(digest@),
                None => None,
            },
        ),
{
    if !target_exists {
        return CopyDecision::InstallNew;
    }
    match (source, target) {
        (Some(one), Some(two)) => {
            if same_digest(&one, &two) {
                CopyDecision::Skip
            } else {
                CopyDecision::Replace
            }
        },
        _ => CopyDecision::Replace,
    }
}

} // verus!
