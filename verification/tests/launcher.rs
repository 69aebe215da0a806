use archmie::launcher::candidates;
use archmie::launcher::plan_launch;
use archmie::launcher::spawn_error_message;
use archmie::launcher::spawn_error_message_generic;
use archmie::launcher::Candidate;
use archmie::launcher::LaunchAction;
use archmie::launcher::LaunchError;
use archmie::launcher::LaunchPlan;
use archmie::wrapper::build_apple_script;
use archmie::wrapper::build_posix_wrapper;
use archmie::wrapper::build_windows_cmdline;

const SUFFIX: &str = "; status=$?; if [ $status -eq 0 ]; then echo \"\\nComando executado com sucesso (status $status).\"; else echo \"\\nComando falhou (status $status).\"; fi; echo \"\\nPressione Enter para fechar...\"; read -r";

#[test]
fn registry_order_is_the_fixed_fallback_order() {
    let cs = candidates();
    let expected = [
        ("gnome-terminal", "--"),
        ("konsole", "-e"),
        ("xfce4-terminal", "-x"),
        ("xterm", "-e"),
        ("alacritty", "-e"),
        ("kitty", "-e"),
    ];
    assert_eq!(cs.len(), expected.len());
    for (c, (p, f)) in cs.iter().zip(expected.iter()) {
        assert_eq!(c.program, *p);
        assert_eq!(c.flag, *f);
    }
}

#[test]
fn posix_wrapper_is_escaped_command_plus_suffix() {
    assert_eq!(build_posix_wrapper("uname -a"), format!("uname -a{}", SUFFIX));
    assert_eq!(
        build_posix_wrapper("echo \"oi\""),
        format!("echo \\\"oi\\\"{}", SUFFIX)
    );
}

#[test]
fn windows_cmdline_embeds_command_unescaped() {
    let line = build_windows_cmdline("dir \"C:\\\"");
    assert!(line.starts_with("dir \"C:\\\" & echo. & if %ERRORLEVEL%==0"));
    assert!(line.ends_with("set /p _=Pressione Enter para fechar..."));
}

#[test]
fn apple_script_wraps_escaped_command_in_do_script() {
    let script = build_apple_script("echo \"oi\"");
    assert!(script.starts_with("tell application \"Terminal\" to do script \"echo \\\"oi\\\";"));
    assert!(script.ends_with("read -r\""));
}

fn three_candidates() -> Vec<Candidate> {
    vec![
        Candidate { program: "term-a".to_string(), flag: "-e".to_string() },
        Candidate { program: "term-b".to_string(), flag: "--".to_string() },
        Candidate { program: "term-c".to_string(), flag: "-x".to_string() },
    ]
}

#[test]
fn launch_selects_first_available_and_skips_the_rest() {
    // A unavailable, B available, C available: B is spawned, C never probed.
    let mut plan = LaunchPlan::new(three_candidates(), "uname -a");
    match plan.current_action() {
        LaunchAction::Probe(p) => assert_eq!(p, "term-a"),
        _ => panic!("expected a probe of the first candidate"),
    }
    plan.advance(false);
    match plan.current_action() {
        LaunchAction::Probe(p) => assert_eq!(p, "term-b"),
        _ => panic!("expected a probe of the second candidate"),
    }
    plan.advance(true);
    match plan.current_action() {
        LaunchAction::Spawn(p, f, w) => {
            assert_eq!(p, "term-b");
            assert_eq!(f, "--");
            assert_eq!(w, format!("uname -a{}", SUFFIX));
        }
        _ => panic!("expected a spawn of the selected candidate"),
    }
    plan.advance(true);
    match plan.current_action() {
        LaunchAction::Succeed => {}
        _ => panic!("expected success after the spawn succeeded"),
    }
}

#[test]
fn launch_retries_next_candidate_when_spawn_fails() {
    let mut plan = LaunchPlan::new(three_candidates(), "uname -a");
    plan.advance(true); // A available
    match plan.current_action() {
        LaunchAction::Spawn(p, _, _) => assert_eq!(p, "term-a"),
        _ => panic!("expected a spawn of the first candidate"),
    }
    plan.advance(false); // spawn failed: back to probing with B
    match plan.current_action() {
        LaunchAction::Probe(p) => assert_eq!(p, "term-b"),
        _ => panic!("expected a probe of the next candidate"),
    }
}

#[test]
fn launch_fails_with_no_terminal_found_naming_all_candidates() {
    let mut plan = plan_launch("uname -a");
    for _ in 0..6 {
        match plan.current_action() {
            LaunchAction::Probe(_) => plan.advance(false),
            _ => panic!("expected a probe for each registry candidate"),
        }
    }
    match plan.current_action() {
        LaunchAction::Fail(m) => {
            assert_eq!(
                m,
                "Nenhum terminal encontrado. Terminais suportados: gnome-terminal, konsole, xfce4-terminal, xterm, alacritty, kitty"
            );
            for name in [
                "gnome-terminal",
                "konsole",
                "xfce4-terminal",
                "xterm",
                "alacritty",
                "kitty",
            ] {
                assert!(m.contains(name));
            }
        }
        _ => panic!("expected the no-terminal failure"),
    }
}

#[test]
fn launch_error_carries_its_message() {
    let e = LaunchError::NoTerminalFound("nada".to_string());
    assert_eq!(e.message(), "nada");
    let e2 = LaunchError::SpawnFailed(spawn_error_message("xterm", "sem display"));
    assert_eq!(e2.message(), "Erro ao abrir xterm: sem display");
    assert_eq!(
        spawn_error_message_generic("sem display"),
        "Erro ao abrir terminal: sem display"
    );
}
