//! The settings of the program and what follows from them.

use crate::text::{
    append_unsigned, chars_of, decimal_digits, lowercase_of, parse_i64, parse_integer, split_on,
    split_ranges, to_lowercase, trim_range, trimmed, pieces_of,
};
use vstd::prelude::*;
use vstd::string::*;

verus! {

/// The threshold that applies where none is given.
pub const DEFAULT_THRESHOLD: u8 = 20;

/// The settings that the command line gives.
#[derive(Clone, Debug, PartialEq, Eq)]
pub struct Cli {
    /// The monitors to watch: numbers separated by commas, or `all`.
    pub monitors: String,
    /// The percentage of visibility below which the renderer is paused.
    pub threshold: Option<u8>,
    /// Whether every monitor is judged by itself.
    pub per_monitor: bool,
    /// The least time between two updates, in milliseconds.
    pub update_rate: u64,
    /// The directory in which the renderer is installed.
    pub wallpaper_engine_path: String,
    /// Whether the 64-bit program of the renderer is called.
    pub bit64: bool,
    /// Whether the monitors are to be listed and nothing else.
    pub list_monitors: bool,
    /// Whether error reporting is switched off.
    pub disable_sentry: bool,
    /// Where errors are reported to.
    pub sentry_dsn: Option<String>,
    /// Whether the interactive installer is asked for.
    pub install_tui: bool,
    /// The directory into which the program is to be installed.
    pub install_dir: Option<String>,
    /// Whether the program is to be set up as a service.
    pub add_startup_service: bool,
    /// Whether the program is to be set up as a scheduled task.
    pub add_startup_task: bool,
}

/// What the program does with its settings.
#[derive(Clone, Copy, Debug, PartialEq, Eq, Structural)]
pub enum LaunchMode {
    /// List the monitors and exit.
    ListMonitors,
    /// Run the interactive installer, then start anew with what it gathered.
    InstallWizard,
    /// Refuse: a service and a scheduled task were asked for together.
    ConflictingStartup,
    /// Install as the settings say, then exit.
    Install,
    /// Monitor the desktop.
    Monitor,
}

/// The monitor index that a piece of the list spells, if it spells one:
/// white space around it does not count.
pub open spec fn index_of_piece(piece: Seq<char>) -> Option<i64> {
    match parse_integer(trimmed(piece), true, i64::MIN as int, i64::MAX as int) {
        Some(value) => Some(value as i64),
        None => None,
    }
}

/// The monitors that `input` selects: `None`, which stands for all of them,
/// if `input` reads `all` in any mix of cases, and else the indices that its
/// pieces between commas spell, in their order. A piece that spells no index
/// is passed over.
pub open spec fn monitor_indices_of(input: Seq<char>) -> Option<Seq<i64>> {
    if lowercase_of(input) == "all"@ {
        None
    } else {
        Some(split_on(input, ',').filter_map(|piece: Seq<char>| index_of_piece(piece)))
    }
}

/// See [`monitor_indices_of`].
pub fn parse_monitor_indices(input: &str) -> (indices: Option<Vec<i64>>)
    ensures
        match indices {
            Some(list) => monitor_indices_of(input@) == Some(list@),
            None => monitor_indices_of(input@) is None,
        },
{
    let lower = to_lowercase(input);
    if lower == String::from_str("all") {
        return None;
    }
    let text = chars_of(input);
    let ranges = split_ranges(&text, ',');
    let ghost pieces = split_on(text@, ',');
    let ghost spelled = |piece: Seq<char>| index_of_piece(piece);
    let mut indices: Vec<i64> = Vec::new();
    let mut i: usize = 0;
    proof {
        assert(pieces.take(0) =~= Seq::empty());
    }
    while i < ranges.len()
        invariant
            i <= ranges.len(),
            pieces == split_on(text@, ','),
            pieces == pieces_of(text@, ranges@),
            spelled == (|piece: Seq<char>| index_of_piece(piece)),
            forall|k: int|
                0 <= k < ranges.len() ==> (#[trigger] ranges[k]).0 <= ranges[k].1 <= text.len(),
            indices@ == pieces.take(i as int).filter_map(spelled),
        decreases ranges.len() - i,
    {
        let range = ranges[i];
        let (from, to) = trim_range(&text, range.0, range.1);
        proof {
            assert(pieces[i as int] == text@.subrange(range.0 as int, range.1 as int));
            pieces.lemma_filter_map_take_succ(spelled, i as int);
        }
        match parse_i64(&text, from, to) {
            Some(index) => {
                indices.push(index);
            },
            None => {},
        }
        i += 1;
    }
    proof {
        assert(pieces.take(ranges.len() as int) =~= pieces);
    }
    Some(indices)
}

/// What the program is asked to do, the first of these that applies: list
/// the monitors; run the interactive installer, which is also what a start
/// without any argument means; refuse a request for both a service and a
/// scheduled task; install; monitor.
///
/// `argument_count` counts the program's own name too.
pub open spec fn launch_mode_of(
    list_monitors: bool,
    install_tui: bool,
    install_dir: bool,
    add_startup_service: bool,
    add_startup_task: bool,
    argument_count: int,
) -> LaunchMode {
    if list_monitors {
        LaunchMode::ListMonitors
    } else if argument_count <= 1 || install_tui {
        LaunchMode::InstallWizard
    } else if install_dir || add_startup_service || add_startup_task {
        if add_startup_service && add_startup_task {
            LaunchMode::ConflictingStartup
        } else {
            LaunchMode::Install
        }
    } else {
        LaunchMode::Monitor
    }
}

/// `name` if `present`, and nothing otherwise.
pub open spec fn switch_of(present: bool, name: Seq<char>) -> Seq<Seq<char>> {
    if present {
        seq![name]
    } else {
        Seq::empty()
    }
}

/// `name` and the value, if there is one, and nothing otherwise.
pub open spec fn setting_of(value: Option<Seq<char>>, name: Seq<char>) -> Seq<Seq<char>> {
    match value {
        Some(value) => seq![name, value],
        None => Seq::empty(),
    }
}

/// The text of an optional text.
pub open spec fn text_of(value: Option<String>) -> Option<Seq<char>> {
    match value {
        Some(text) => Some(text@),
        None => None,
    }
}

/// The decimal notation of an optional number.
pub open spec fn number_of(value: Option<u8>) -> Option<Seq<char>> {
    match value {
        Some(number) => Some(decimal_digits(number as nat)),
        None => None,
    }
}

/// The arguments with which the program starts anew after the interactive
/// installer: what to install, then the settings for monitoring.
pub open spec fn relaunch_arguments_of(cli: Cli) -> Seq<Seq<char>> {
    setting_of(text_of(cli.install_dir), "--install-dir"@) + switch_of(
        cli.add_startup_service,
        "--add-startup-service"@,
    ) + switch_of(cli.add_startup_task, "--add-startup-task"@) + seq!["-m"@, cli.monitors@]
        + setting_of(number_of(cli.threshold), "-t"@) + switch_of(cli.per_monitor, "-p"@) + seq![
        "-u"@,
        decimal_digits(cli.update_rate as nat),
    ] + switch_of(cli.bit64, "--64bit"@) + switch_of(cli.disable_sentry, "--disable-sentry"@)
        + setting_of(text_of(cli.sentry_dsn), "--sentry-dsn"@)
}

/// Appends `argument` to `arguments`.
fn push_argument(arguments: &mut Vec<String>, argument: String)
    ensures
        final(arguments).deep_view() == old(arguments).deep_view().push(argument@),
{
    arguments.push(argument);
    assert(arguments.deep_view() =~= old(arguments).deep_view().push(argument@));
}

/// Appends `name` to `arguments` if `present`.
fn push_switch(arguments: &mut Vec<String>, present: bool, name: &str)
    ensures
        final(arguments).deep_view() == old(arguments).deep_view() + switch_of(present, name@),
{
    if present {
        push_argument(arguments, String::from_str(name));
    }
    assert(arguments.deep_view() =~= old(arguments).deep_view() + switch_of(present, name@));
}

/// Appends `name` and `value` to `arguments`.
fn push_setting(arguments: &mut Vec<String>, name: &str, value: String)
    ensures
        final(arguments).deep_view() == old(arguments).deep_view() + seq![name@, value@],
{
    push_argument(arguments, String::from_str(name));
    push_argument(arguments, value);
    assert(arguments.deep_view() =~= old(arguments).deep_view() + seq![name@, value@]);
}

/// The decimal notation of `number`.
fn unsigned_string(number: u64) -> (text: String)
    ensures
        text@ == decimal_digits(number as nat),
{
    let mut text = String::new();
    append_unsigned(&mut text, number);
    assert(text@ =~= decimal_digits(number as nat));
    text
}

impl Cli {
    /// The threshold that applies: the one given, or [`DEFAULT_THRESHOLD`].
    pub fn effective_threshold(&self) -> (threshold: u8)
        ensures
            threshold == match self.threshold {
                Some(given) => given,
                None => DEFAULT_THRESHOLD,
            },
    {
        match self.threshold {
            Some(given) => given,
            None => DEFAULT_THRESHOLD,
        }
    }

    /// See [`launch_mode_of`].
    pub fn launch_mode(&self, argument_count: usize) -> (mode: LaunchMode)
        ensures
            mode == launch_mode_of(
                self.list_monitors,
                self.install_tui,
                self.install_dir is Some,
                self.add_startup_service,
                self.add_startup_task,
                argument_count as int,
            ),
    {
        if self.list_monitors {
            LaunchMode::ListMonitors
        } else if argument_count <= 1 || self.install_tui {
            LaunchMode::InstallWizard
        } else if self.install_dir.is_some() || self.add_startup_service || self.add_startup_task {
            if self.add_startup_service && self.add_startup_task {
                LaunchMode::ConflictingStartup
            } else {
                LaunchMode::Install
            }
        } else {
            LaunchMode::Monitor
        }
    }

    /// See [`relaunch_arguments_of`].
    pub fn relaunch_arguments(&self) -> (arguments: Vec<String>)
        ensures
            arguments.deep_view() == relaunch_arguments_of(*self),
    {
        let mut arguments: Vec<String> = Vec::new();
        assert(arguments.deep_view() =~= Seq::empty());
        match &self.install_dir {
            Some(directory) => {
                push_setting(&mut arguments, "--install-dir", directory.clone());
            },
            None => {},
        }
        assert(arguments.deep_view() =~= setting_of(text_of(self.install_dir), "--install-dir"@));
        push_switch(&mut arguments, self.add_startup_service, "--add-startup-service");
        push_switch(&mut arguments, self.add_startup_task, "--add-startup-task");
        push_setting(&mut arguments, "-m", self.monitors.clone());
        let ghost head = arguments.deep_view();
        match self.threshold {
            Some(threshold) => {
                push_setting(&mut arguments, "-t", unsigned_string(threshold as u64));
            },
            None => {},
        }
        assert(arguments.deep_view() =~= head + setting_of(number_of(self.threshold), "-t"@));
        push_switch(&mut arguments, self.per_monitor, "-p");
        push_setting(&mut arguments, "-u", unsigned_string(self.update_rate));
        push_switch(&mut arguments, self.bit64, "--64bit");
        push_switch(&mut arguments, self.disable_sentry, "--disable-sentry");
        let ghost body = arguments.deep_view();
        match &self.sentry_dsn {
            Some(dsn) => {
                push_setting(&mut arguments, "--sentry-dsn", dsn.clone());
            },
            None => {},
        }
        assert(arguments.deep_view() =~= body + setting_of(
            text_of(self.sentry_dsn),
            "--sentry-dsn"@,
        ));
        arguments
    }
}

/// Whether `argument` is one of the words that the renderer's service adds
/// when it starts the program, and that are no settings.
pub open spec fn is_launcher_word(argument: Seq<char>) -> bool {
    argument == "-safe"@ || argument == "-silent"@ || argument == "-service"@
}

/// The arguments without the words of the renderer's service.
pub open spec fn settings_of(arguments: Seq<Seq<char>>) -> Seq<Seq<char>> {
    arguments.filter(|argument: Seq<char>| !is_launcher_word(argument))
}

/// Whether the program is to keep quiet: it was started with `-silent`.
pub open spec fn silent_of(arguments: Seq<Seq<char>>) -> bool {
    arguments.contains("-silent"@)
}

/// See [`is_launcher_word`].
fn launcher_word(argument: &String) -> (found: bool)
    ensures
        found == is_launcher_word(argument@),
{
    *argument == String::from_str("-safe") || *argument == String::from_str("-silent")
        || *argument == String::from_str("-service")
}

/// See [`settings_of`].
pub fn strip_launcher_words(arguments: &Vec<String>) -> (settings: Vec<String>)
    ensures
        settings.deep_view() == settings_of(arguments.deep_view()),
{
    let ghost all = arguments.deep_view();
    let ghost kept = |argument: Seq<char>| !is_launcher_word(argument);
    let mut settings: Vec<String> = Vec::new();
    let mut i: usize = 0;
    proof {
        reveal(Seq::filter);
        assert(all.take(0) =~= Seq::empty());
        assert(settings.deep_view() =~= Seq::empty());
    }
    while i < arguments.len()
        invariant
            i <= arguments.len(),
            all == arguments.deep_view(),
            kept == (|argument: Seq<char>| !is_launcher_word(argument)),
            settings.deep_view() == all.take(i as int).filter(kept),
        decreases arguments.len() - i,
    {
        proof {
            reveal(Seq::filter);
            let next = all.take(i + 1);
            assert(next.drop_last() =~= all.take(i as int));
            assert(next.last() == arguments@[i as int]@);
        }
        if !launcher_word(&arguments[i]) {
            push_argument(&mut settings, arguments[i].clone());
        }
        i += 1;
    }
    proof {
        assert(all.take(arguments.len() as int) =~= all);
    }
    settings
}

/// See [`silent_of`].
pub fn is_silent(arguments: &Vec<String>) -> (silent: bool)
    ensures
        silent == silent_of(arguments.deep_view()),
{
    let ghost all = arguments.deep_view();
    let mut i: usize = 0;
    while i < arguments.len()
        invariant
            i <= arguments.len(),
            all == arguments.deep_view(),
            forall|k: int| 0 <= k < i ==> all[k] != "-silent"@,
        decreases arguments.len() - i,
    {
        if arguments[i] == String::from_str("-silent") {
            assert(all[i as int] == "-silent"@);
            return true;
        }
        i += 1;
    }
    false
}

} // verus!
