use keyset::{
    check_launch, config_path, join_path, plan, set_keyboard, usb_id, xmodmap_dir, CliOptions,
    Config, Invocation, InvocationOutcome, Keyboard, KeysetError, Plan,
};

fn s(x: &str) -> String {
    x.to_string()
}

fn kb(mapping: &str, variant: &str, options: &[&str], remap: &str) -> Keyboard {
    Keyboard {
        mapping: s(mapping),
        variant: s(variant),
        options: options.iter().map(|o| s(o)).collect(),
        xmodmapconfig: s(remap),
    }
}

fn ergo_config() -> Config {
    Config::new(
        vec![(s("ergo"), kb("us", "alt-intl", &[], "ergo.xmodmap"))],
        vec![(s("05e3:0614"), s("ergo"))],
    )
    .unwrap()
}

fn opts(debug: bool, force: Option<&str>) -> CliOptions {
    CliOptions {
        default: s("104"),
        debug,
        list: false,
        attached: false,
        force: force.map(s),
        apply_remap: true,
    }
}

#[test]
fn args_without_options() {
    let k = kb("us", "alt-intl", &[], "x");
    assert_eq!(k.setxkbmap_args(), vec![s("us"), s("-variant"), s("alt-intl")]);
}

#[test]
fn args_keep_option_order() {
    let k = kb("de", "nodeadkeys", &["opt1", "opt2"], "x");
    assert_eq!(
        k.setxkbmap_args(),
        vec![
            s("de"),
            s("-variant"),
            s("nodeadkeys"),
            s("-option"),
            s("opt1"),
            s("-option"),
            s("opt2")
        ]
    );
}

#[test]
fn args_built_twice_are_equal() {
    let k = kb("us", "intl", &["caps:escape", "compose:ralt"], "x");
    assert_eq!(k.setxkbmap_args(), k.setxkbmap_args());
}

#[test]
fn join_inserts_one_separator() {
    assert_eq!(join_path("/home/u", "a.xmodmap"), "/home/u/a.xmodmap");
    assert_eq!(join_path("/home/u/", "a.xmodmap"), "/home/u/a.xmodmap");
    assert_eq!(join_path("", "a.xmodmap"), "a.xmodmap");
    assert_eq!(join_path("/home/u", "/etc/a"), "/etc/a");
}

#[test]
fn environment_paths() {
    assert_eq!(config_path(&Some(s("/home/u"))).unwrap(), "/home/u/dotfiles/keyset.toml");
    assert!(matches!(config_path(&None), Err(KeysetError::ConfigError(_))));
    assert_eq!(xmodmap_dir(&Some(s("/cloud"))).unwrap(), "/cloud/xmodmapconfigs");
    assert!(matches!(xmodmap_dir(&None), Err(KeysetError::ConfigError(_))));
}

#[test]
fn remap_file_present_and_missing() {
    let k = kb("us", "intl", &[], "ergo.xmodmap");
    assert_eq!(k.xmodmap_file("/c/xmodmapconfigs", true).unwrap(), "/c/xmodmapconfigs/ergo.xmodmap");
    assert_eq!(
        k.xmodmap_file("/c/xmodmapconfigs", false),
        Err(KeysetError::RemapFileMissing(s("/c/xmodmapconfigs/ergo.xmodmap")))
    );
}

#[test]
fn usb_ids_are_lowercase_fixed_width() {
    assert_eq!(usb_id(0x05e3, 0x0614), "05e3:0614");
    assert_eq!(usb_id(0xABCD, 0), "abcd:0000");
    assert_eq!(usb_id(0xffff, 0x1), "ffff:0001");
}

#[test]
fn duplicate_keys_are_refused() {
    let r = Config::new(
        vec![(s("a"), kb("us", "x", &[], "f")), (s("a"), kb("de", "y", &[], "g"))],
        vec![],
    );
    assert!(matches!(r, Err(KeysetError::DuplicateKey(ref k)) if k == "a"));
    let r = Config::new(vec![], vec![(s("1111:2222"), s("a")), (s("1111:2222"), s("b"))]);
    assert!(matches!(r, Err(KeysetError::DuplicateKey(ref k)) if k == "1111:2222"));
}

#[test]
fn names_in_table_order() {
    let c = Config::new(
        vec![(s("b"), kb("us", "x", &[], "f")), (s("a"), kb("de", "y", &[], "g"))],
        vec![],
    )
    .unwrap();
    assert_eq!(c.keyboard_names(), vec![s("b"), s("a")]);
}

#[test]
fn ergo_scenario_applies_layout_and_remap() {
    let c = ergo_config();
    let o = opts(false, None);
    let p = plan(&o);
    assert!(matches!(p, Plan::Detect));
    assert!(p.needs_devices());
    let k = c.resolve(&vec![s("05e3:0614")]).unwrap().unwrap();
    assert_eq!(k.setxkbmap_args(), vec![s("us"), s("-variant"), s("alt-intl")]);
    let calls = set_keyboard(k, "/cloud/xmodmapconfigs", true, &o).unwrap();
    assert_eq!(calls.len(), 2);
    assert_eq!(calls[0].program(), "setxkbmap");
    assert_eq!(calls[0].arguments(), vec![s("us"), s("-variant"), s("alt-intl")]);
    assert_eq!(calls[1].program(), "xmodmap");
    assert_eq!(calls[1].arguments(), vec![s("/cloud/xmodmapconfigs/ergo.xmodmap")]);
    assert!(matches!(&calls[1], Invocation::Remap(_)));
    assert_eq!(check_launch(&InvocationOutcome::Exited(0), "setxkbmap"), Ok(()));
}

#[test]
fn unmatched_device_selects_nothing() {
    let c = ergo_config();
    assert!(c.resolve(&vec![s("aaaa:bbbb")]).unwrap().is_none());
    assert!(c.resolve(&vec![]).unwrap().is_none());
}

#[test]
fn forced_unknown_profile_skips_devices() {
    let c = ergo_config();
    let o = opts(false, Some("unknown"));
    let p = plan(&o);
    assert!(!p.needs_devices());
    match p {
        Plan::Forced(name) => {
            assert_eq!(c.resolve_forced(&name).err(), Some(KeysetError::UnknownProfile(s("unknown"))));
        }
        _ => panic!("expected a forced plan"),
    }
}

#[test]
fn forced_profile_beats_attached_listing() {
    let mut o = opts(false, Some("ergo"));
    o.attached = true;
    assert!(matches!(plan(&o), Plan::Forced(ref n) if n == "ergo"));
    o.list = true;
    assert!(matches!(plan(&o), Plan::ListProfiles));
    o.list = false;
    o.force = None;
    assert!(matches!(plan(&o), Plan::ShowAttached));
}

#[test]
fn forced_known_profile_resolves() {
    let c = ergo_config();
    assert_eq!(c.resolve_forced(&s("ergo")).unwrap().variant, "alt-intl");
}

#[test]
fn usb_id_without_profile_is_missing() {
    let c = Config::new(vec![], vec![(s("05e3:0614"), s("ghost"))]).unwrap();
    assert_eq!(
        c.resolve(&vec![s("05e3:0614")]).err(),
        Some(KeysetError::MissingProfile(s("ghost")))
    );
}

#[test]
fn first_configured_device_wins() {
    let c = Config::new(
        vec![(s("a"), kb("us", "x", &[], "f")), (s("b"), kb("de", "y", &[], "g"))],
        vec![(s("0000:0001"), s("a")), (s("0000:0002"), s("b")), (s("0000:0003"), s("ghost"))],
    )
    .unwrap();
    let ids = vec![s("9999:9999"), s("0000:0002"), s("0000:0001")];
    assert_eq!(c.resolve(&ids).unwrap().unwrap().mapping, "de");
    let ids = vec![s("0000:0001"), s("0000:0003")];
    assert_eq!(c.resolve(&ids).unwrap().unwrap().mapping, "us");
}

#[test]
fn attached_lists_every_configured_device() {
    let c = Config::new(
        vec![],
        vec![(s("0000:0001"), s("a")), (s("0000:0002"), s("ghost"))],
    )
    .unwrap();
    let ids = vec![s("0000:0002"), s("1234:5678"), s("0000:0001")];
    assert_eq!(
        c.attached(&ids),
        vec![(s("0000:0002"), s("ghost")), (s("0000:0001"), s("a"))]
    );
}

#[test]
fn debug_mode_invokes_nothing() {
    let c = ergo_config();
    let k = c.resolve_forced(&s("ergo")).unwrap();
    let calls = set_keyboard(k, "/cloud/xmodmapconfigs", true, &opts(true, None)).unwrap();
    assert!(calls.is_empty());
}

#[test]
fn missing_remap_file_fails_even_in_debug() {
    let c = ergo_config();
    let k = c.resolve_forced(&s("ergo")).unwrap();
    assert_eq!(
        set_keyboard(k, "/cloud/xmodmapconfigs", false, &opts(true, None)).err(),
        Some(KeysetError::RemapFileMissing(s("/cloud/xmodmapconfigs/ergo.xmodmap")))
    );
}

#[test]
fn remap_step_can_be_disabled() {
    let c = ergo_config();
    let k = c.resolve_forced(&s("ergo")).unwrap();
    let mut o = opts(false, None);
    o.apply_remap = false;
    let calls = set_keyboard(k, "/d", true, &o).unwrap();
    assert_eq!(calls.len(), 1);
    assert_eq!(calls[0].program(), "setxkbmap");
}

#[test]
fn launch_failure_is_fatal_exit_status_is_not() {
    assert_eq!(check_launch(&InvocationOutcome::Exited(3), "setxkbmap"), Ok(()));
    assert_eq!(
        check_launch(&InvocationOutcome::LaunchFailed, "xmodmap"),
        Err(KeysetError::LaunchError(s("xmodmap")))
    );
}

#[test]
fn profile_without_variant_is_refused() {
    let r = Config::new(vec![(s("bare"), kb("us", "", &[], "f"))], vec![]);
    assert_eq!(r.err(), Some(KeysetError::IncompleteProfile(s("bare"))));
    let r = Config::new(vec![(s("bare"), kb("", "intl", &[], "f"))], vec![]);
    assert_eq!(r.err(), Some(KeysetError::IncompleteProfile(s("bare"))));
}
