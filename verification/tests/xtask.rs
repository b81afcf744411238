//! The command line of the repository tasks.
use rmux::xtask::{parse_args, run_feature_inventory, Command, InventoryReport, HELP};

fn parse(args: &[&str]) -> Result<Command, String> {
    let args: Vec<String> = args.iter().map(|arg| arg.to_string()).collect();
    parse_args(&args)
}

#[test]
fn no_args_prints_help() {
    assert_eq!(parse(&[]), Ok(Command::Help));
}

#[test]
fn help_aliases_print_help() {
    for alias in ["--help", "-h", "help"] {
        assert_eq!(parse(&[alias]), Ok(Command::Help));
    }
}

#[test]
fn unknown_command_is_an_error() {
    assert_eq!(
        parse(&["build"]).expect_err("unknown command errors"),
        "unknown xtask command: build"
    );
}

#[test]
fn extra_argument_to_help_is_an_error() {
    assert_eq!(
        parse(&["--help", "build"]).expect_err("extra argument errors"),
        "unexpected xtask argument after --help: build"
    );
}

#[test]
fn feature_inventory_defaults_to_write_mode() {
    assert_eq!(
        parse(&["feature-inventory"]),
        Ok(Command::FeatureInventory { check: false })
    );
}

#[test]
fn feature_inventory_check_flag_selects_check_mode() {
    assert_eq!(
        parse(&["feature-inventory", "--check"]),
        Ok(Command::FeatureInventory { check: true })
    );
}

#[test]
fn feature_inventory_rejects_unknown_argument() {
    assert_eq!(
        parse(&["feature-inventory", "--bogus"]).expect_err("unknown feature-inventory flag errors"),
        "unknown feature-inventory argument: --bogus"
    );
}

#[test]
fn the_inventory_is_reported() {
    let report = InventoryReport {
        changed: vec!["a.md".to_owned()],
        unchanged: vec!["b.md".to_owned()],
    };
    assert_eq!(
        run_feature_inventory(Ok(report)),
        Ok(vec![
            "feature-inventory: wrote a.md".to_owned(),
            "feature-inventory: unchanged b.md".to_owned(),
        ])
    );
    assert_eq!(
        run_feature_inventory(Err("gone".to_owned())),
        Err("xtask feature-inventory failed: gone".to_owned())
    );
}

#[test]
fn the_help_text_names_the_commands() {
    assert!(HELP.starts_with("RMUX repository tasks\n"));
    assert!(HELP.contains("feature-inventory --check"));
}
