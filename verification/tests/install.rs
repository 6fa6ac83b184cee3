use wallpaper_controller::install::tui::{
    check_install_dir, startup_choice, validate_install_dir, validate_monitors,
    validate_threshold, validate_update_rate, StartupChoice,
};
use wallpaper_controller::install::{
    build_command_line, content_digest, copy_decision, filter_passthrough, judge_target,
    quote_arg, reads_exe, CopyDecision, SkipFlag, TargetVerdict,
};

fn strings(words: &[&str]) -> Vec<String> {
    words.iter().map(|word| word.to_string()).collect()
}

fn err(message: &str) -> Result<(), String> {
    Err(message.to_string())
}

fn installer_flags() -> Vec<SkipFlag> {
    vec![
        SkipFlag { flag: String::from("--install-tui"), takes_value: false },
        SkipFlag { flag: String::from("--install-dir"), takes_value: true },
        SkipFlag { flag: String::from("--add-startup-service"), takes_value: false },
        SkipFlag { flag: String::from("--add-startup-task"), takes_value: false },
    ]
}

#[test]
fn threshold_is_a_number_from_zero_to_a_hundred() {
    assert_eq!(validate_threshold("0"), Ok(()));
    assert_eq!(validate_threshold("20"), Ok(()));
    assert_eq!(validate_threshold(" 100 "), Ok(()));
    assert_eq!(validate_threshold("+7"), Ok(()));
    assert_eq!(validate_threshold(""), err("Please enter a number between 0 and 100"));
    assert_eq!(validate_threshold("  \t"), err("Please enter a number between 0 and 100"));
    for input in ["101", "255", "256", "-1", "1.5", "ten", "1 0", "99999999999999999999"] {
        assert_eq!(validate_threshold(input), err("Threshold must be an integer between 0 and 100"));
    }
}

#[test]
fn update_rate_is_a_number_of_milliseconds() {
    assert_eq!(validate_update_rate("100"), Ok(()));
    assert_eq!(validate_update_rate(" 500\n"), Ok(()));
    assert_eq!(validate_update_rate("60000"), Ok(()));
    for input in ["", " ", "99", "0", "60001", "-500", "500ms", "1e3", "18446744073709551616"] {
        assert_eq!(validate_update_rate(input), err("Enter an integer between 100 and 60000 ms"));
    }
}

#[test]
fn monitors_are_all_or_a_list_of_numbers() {
    assert_eq!(validate_monitors("all"), Ok(()));
    assert_eq!(validate_monitors("  ALL "), Ok(()));
    assert_eq!(validate_monitors("1"), Ok(()));
    assert_eq!(validate_monitors(" 1, 2 ,3 "), Ok(()));
    assert_eq!(validate_monitors("4294967295"), Ok(()));
    assert_eq!(validate_monitors("+2"), Ok(()));
}

#[test]
fn monitors_are_refused_with_the_first_objection() {
    assert_eq!(validate_monitors(""), err("Enter 'all' or a list like 1,2,3"));
    assert_eq!(validate_monitors("   "), err("Enter 'all' or a list like 1,2,3"));
    assert_eq!(validate_monitors("1,,2"), err("Invalid list: contains empty entries"));
    assert_eq!(validate_monitors(","), err("Invalid list: contains empty entries"));
    assert_eq!(validate_monitors("1, ,x"), err("Invalid list: contains empty entries"));
    assert_eq!(
        validate_monitors("0"),
        err("'0' is not a valid monitor number (must be >= 1)")
    );
    assert_eq!(
        validate_monitors("1, Two ,,3"),
        err("'two' is not a valid monitor number (must be >= 1)")
    );
    assert_eq!(
        validate_monitors("1,-2"),
        err("'-2' is not a valid monitor number (must be >= 1)")
    );
    assert_eq!(
        validate_monitors("4294967296"),
        err("'4294967296' is not a valid monitor number (must be >= 1)")
    );
    assert_eq!(
        validate_monitors("all,1"),
        err("'all' is not a valid monitor number (must be >= 1)")
    );
}

#[test]
fn install_directory_is_checked_in_order() {
    assert_eq!(check_install_dir("C:\\tools", None, false), Ok(()));
    assert_eq!(check_install_dir("  C:\\tools\\v1.2 ", Some("2"), false), Ok(()));
    assert_eq!(check_install_dir("", None, true), err("Please enter a directory path"));
    assert_eq!(check_install_dir(" \t ", Some("exe"), true), err("Please enter a directory path"));
    assert_eq!(
        check_install_dir("C:\\a<b.exe", Some("EXE"), true),
        err("This looks like a file path (.exe). Please provide a folder")
    );
    for path in ["a<b", "a>b", "a\"b", "a|b", "a?b", "a*b"] {
        assert_eq!(
            check_install_dir(path, Some("txt"), true),
            err("Path contains invalid Windows characters: <>:\"|?*")
        );
    }
    assert_eq!(check_install_dir("C:\\a:b", None, false), Ok(()));
    assert_eq!(
        check_install_dir("C:\\tools", None, true),
        err("Path points to a file; please provide a directory")
    );
}

#[test]
fn install_directory_is_checked_with_the_extension_of_the_path() {
    assert_eq!(validate_install_dir("tools", false), Ok(()));
    assert_eq!(validate_install_dir("  ", false), err("Please enter a directory path"));
    assert_eq!(
        validate_install_dir(" program.ExE ", false),
        err("This looks like a file path (.exe). Please provide a folder")
    );
    assert_eq!(validate_install_dir("program.exe.old", false), Ok(()));
    assert_eq!(
        validate_install_dir("to*ols", false),
        err("Path contains invalid Windows characters: <>:\"|?*")
    );
    assert_eq!(
        validate_install_dir("tools", true),
        err("Path points to a file; please provide a directory")
    );
}

#[test]
fn extension_of_a_program_is_told_in_any_case() {
    for extension in ["exe", "EXE", "Exe", "eXe"] {
        assert!(reads_exe(extension));
    }
    for extension in ["", "ex", "exec", "exx", "axe", "éxe"] {
        assert!(!reads_exe(extension));
    }
}

#[test]
fn startup_menu_is_read_by_what_it_offers() {
    assert_eq!(startup_choice(true, 0), StartupChoice::Service);
    assert_eq!(startup_choice(true, 1), StartupChoice::ScheduledTask);
    assert_eq!(startup_choice(false, 0), StartupChoice::ScheduledTask);
    assert_eq!(startup_choice(false, 1), StartupChoice::EnableServiceAndRetry);
    assert_eq!(startup_choice(true, 2), StartupChoice::ScheduledTask);
}

#[test]
fn arguments_are_quoted_where_they_need_it() {
    assert_eq!(quote_arg("plain"), "plain");
    assert_eq!(quote_arg(""), "");
    assert_eq!(quote_arg("C:\\Program Files\\x"), "\"C:\\Program Files\\x\"");
    assert_eq!(quote_arg("a\tb"), "\"a\tb\"");
    assert_eq!(quote_arg("a\u{a0}b"), "\"a\u{a0}b\"");
    assert_eq!(quote_arg("say\"hi\""), "\"say\\\"hi\\\"\"");
    for special in ["^", "&", "|", ">", "<"] {
        assert_eq!(quote_arg(special), format!("\"{special}\""));
    }
    assert_eq!(quote_arg("a%b'c"), "a%b'c");
}

#[test]
fn command_line_joins_the_quoted_arguments() {
    assert_eq!(build_command_line("program.exe", &vec![]), "program.exe");
    assert_eq!(
        build_command_line(
            "C:\\Program Files\\wc\\program.exe",
            &strings(&["-m", "1,2", "-w", "D:\\my games", "-silent"])
        ),
        "\"C:\\Program Files\\wc\\program.exe\" -m 1,2 -w \"D:\\my games\" -silent"
    );
    assert_eq!(build_command_line("p", &strings(&["", "a"])), "p  a");
}

#[test]
fn installer_options_are_not_passed_through() {
    let flags = installer_flags();
    assert_eq!(
        filter_passthrough(
            &strings(&[
                "--install-dir",
                "C:\\tools",
                "-m",
                "1",
                "--add-startup-service",
                "-t",
                "30",
                "--install-tui",
                "--add-startup-task",
                "-p",
            ]),
            &flags
        ),
        strings(&["-m", "1", "-t", "30", "-p"])
    );
    assert_eq!(
        filter_passthrough(&strings(&["--install-dir=C:\\tools", "-m", "1"]), &flags),
        strings(&["-m", "1"])
    );
    assert_eq!(filter_passthrough(&strings(&["-m", "--install-dir"]), &flags), strings(&["-m"]));
    assert_eq!(
        filter_passthrough(&strings(&["--install-tui=yes", "x", "--add-startup-task", "y"]), &flags),
        strings(&["x", "y"])
    );
    assert_eq!(
        filter_passthrough(&strings(&["--install-dir", "--install-dir", "kept"]), &flags),
        strings(&["kept"])
    );
    assert_eq!(
        filter_passthrough(&strings(&["--install-directory", "--install", "-install-dir"]), &flags),
        strings(&["--install-directory", "--install", "-install-dir"])
    );
    assert_eq!(filter_passthrough(&vec![], &flags), Vec::<String>::new());
    assert_eq!(filter_passthrough(&strings(&["a", "b"]), &vec![]), strings(&["a", "b"]));
}

#[test]
fn target_is_judged_by_what_stands_there() {
    assert_eq!(judge_target(true, true, None), TargetVerdict::IsFile);
    assert_eq!(judge_target(true, true, Some("exe")), TargetVerdict::IsFile);
    assert_eq!(judge_target(true, false, Some("exe")), TargetVerdict::Usable);
    assert_eq!(judge_target(false, false, Some("exe")), TargetVerdict::LooksLikeFile);
    assert_eq!(judge_target(false, true, Some("EXE")), TargetVerdict::LooksLikeFile);
    assert_eq!(judge_target(false, false, Some("d")), TargetVerdict::Usable);
    assert_eq!(judge_target(false, false, None), TargetVerdict::Usable);
}

#[test]
fn digest_is_that_of_blake3() {
    let empty: [u8; 32] = [
        0xaf, 0x13, 0x49, 0xb9, 0xf5, 0xf9, 0xa1, 0xa6, 0xa0, 0x40, 0x4d, 0xea, 0x36, 0xdc, 0xc9,
        0x49, 0x9b, 0xcb, 0x25, 0xc9, 0xad, 0xc1, 0x12, 0xb7, 0xcc, 0x9a, 0x93, 0xca, 0xe4, 0x1f,
        0x32, 0x62,
    ];
    assert_eq!(content_digest(b""), empty);
    assert_ne!(content_digest(b"a"), content_digest(b"b"));
    assert_eq!(content_digest(b"same"), content_digest(&[b's', b'a', b'm', b'e']));
    let mut streamed = blake3::Hasher::new();
    streamed.update(b"in two ");
    streamed.update(b"parts");
    assert_eq!(&content_digest(b"in two parts"), streamed.finalize().as_bytes());
}

#[test]
fn copy_is_skipped_only_for_the_same_content() {
    let one = content_digest(b"one");
    let two = content_digest(b"two");
    assert_eq!(copy_decision(false, None, None), CopyDecision::InstallNew);
    assert_eq!(copy_decision(false, Some(one), Some(one)), CopyDecision::InstallNew);
    assert_eq!(copy_decision(true, Some(one), Some(one)), CopyDecision::Skip);
    assert_eq!(copy_decision(true, Some(one), Some(two)), CopyDecision::Replace);
    assert_eq!(copy_decision(true, None, Some(two)), CopyDecision::Replace);
    assert_eq!(copy_decision(true, Some(one), None), CopyDecision::Replace);
    assert_eq!(copy_decision(true, None, None), CopyDecision::Replace);
    let mut near = one;
    near[31] ^= 1;
    assert_eq!(copy_decision(true, Some(one), Some(near)), CopyDecision::Replace);
}

fn threshold_by_the_standard_parser(s: &str) -> Result<(), String> {
    if s.trim().is_empty() {
        return Err("Please enter a number between 0 and 100".into());
    }
    match s.trim().parse::<u8>() {
        Ok(v) if v <= 100 => Ok(()),
        _ => Err("Threshold must be an integer between 0 and 100".into()),
    }
}

fn update_rate_by_the_standard_parser(s: &str) -> Result<(), String> {
    match s.trim().parse::<u64>() {
        Ok(ms) if (100..=60000).contains(&ms) => Ok(()),
        _ => Err("Enter an integer between 100 and 60000 ms".into()),
    }
}

fn monitors_by_the_standard_parser(s: &str) -> Result<(), String> {
    let t = s.trim().to_lowercase();
    if t == "all" {
        return Ok(());
    }
    if t.is_empty() {
        return Err("Enter 'all' or a list like 1,2,3".into());
    }
    for part in t.split(',') {
        let p = part.trim();
        if p.is_empty() {
            return Err("Invalid list: contains empty entries".into());
        }
        match p.parse::<u32>() {
            Ok(n) if n >= 1 => (),
            _ => return Err(format!("'{}' is not a valid monitor number (must be >= 1)", p)),
        }
    }
    Ok(())
}

#[test]
fn validators_agree_with_the_standard_functions() {
    let inputs = [
        "", " ", "0", "1", "20", "99", "100", "101", "255", "256", "500", "59999", "60000",
        "60001", "+5", "-5", "+", "-", "1,2", "1, 2", " 1 ,2 ", "1,,2", ",", "1,", ",1", "all",
        "ALL", " aLl ", "all,", "x", "1,X,2", "0,1", "1,0", "4294967295", "4294967296", "1.0",
        "\t7\n", "\u{a0}8\u{a0}", "٣", "İ", "1,İ", "0007", "1 2",
    ];
    for input in inputs {
        assert_eq!(validate_threshold(input), threshold_by_the_standard_parser(input));
        assert_eq!(validate_update_rate(input), update_rate_by_the_standard_parser(input));
        assert_eq!(validate_monitors(input), monitors_by_the_standard_parser(input));
    }
}
