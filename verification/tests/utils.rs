use ttyd::utils::{get_sig, get_sig_name, get_sig_name_on, get_sig_on, hostname, System};

#[test]
fn a_numeric_signal_is_parsed_the_way_atoi_would() {
    assert_eq!(get_sig("9"), 9);
    assert_eq!(get_sig("+9"), 9);
    assert_eq!(get_sig("-9"), -9);
    assert_eq!(get_sig("9-1"), 9);
    assert_eq!(get_sig("9+1"), 9);
    assert_eq!(get_sig("12abc"), 12);
    assert_eq!(get_sig("  15"), 15);
    assert_eq!(get_sig("nonsense"), 0);
    assert_eq!(get_sig("+"), 0);
    assert_eq!(get_sig("-"), 0);
    assert_eq!(get_sig(""), 0);
}

#[test]
fn signal_names_round_trip() {
    assert_eq!(get_sig_name(1), "SIGHUP");
    assert_eq!(get_sig_name(15), "SIGTERM");
    assert_eq!(get_sig_name(9), "SIGKILL");
    assert_eq!(get_sig("HUP"), 1);
    assert_eq!(get_sig("SIGHUP"), 1);
    assert_eq!(get_sig("sigterm"), 15);
    assert_eq!(get_sig("9"), 9);
    assert_eq!(get_sig("nonsense"), 0);
}

#[test]
fn unknown_signal_number_is_labelled() {
    assert_eq!(get_sig_name(200), "SIGUNKNOWN");
}

#[test]
fn every_signal_is_found_by_its_rendered_name() {
    for sig in 1..=31 {
        assert_eq!(get_sig(&get_sig_name(sig)), sig);
        assert_eq!(get_sig(&get_sig_name(sig)[3..].to_lowercase()), sig);
    }
    assert_eq!(get_sig_name(0), "SIGZERO");
    assert_eq!(get_sig_name(32), "SIGUNKNOWN");
    assert_eq!(get_sig_name(-1), "SIGUNKNOWN");
}

#[test]
fn a_number_beyond_32_bits_is_no_signal() {
    assert_eq!(get_sig("2147483647"), i32::MAX);
    assert_eq!(get_sig("2147483648"), 0);
    assert_eq!(get_sig("-2147483648"), i32::MIN);
    assert_eq!(get_sig("-2147483649"), 0);
    assert_eq!(get_sig("99999999999999999999999"), 0);
    assert_eq!(get_sig("SigHUP"), 0);
    assert_eq!(get_sig("unknown"), 0);
}

#[test]
fn the_host_has_a_name_without_line_breaks() {
    assert!(!hostname().contains('\n'));
}

#[test]
fn each_system_has_its_own_numbers() {
    for sig in 1..=31 {
        for system in [System::Linux, System::Bsd] {
            let name = get_sig_name_on(system, sig);
            assert_eq!(get_sig_on(system, &name), sig);
            assert_eq!(get_sig_on(system, &name.to_lowercase()), sig);
            assert_eq!(get_sig_on(system, &name[3..].to_lowercase()), sig);
        }
    }
    assert_eq!(get_sig_name_on(System::Bsd, 10), "SIGBUS");
    assert_eq!(get_sig_on(System::Bsd, "USR1"), 30);
    assert_eq!(get_sig_on(System::Linux, "BUS"), 0);
    assert_eq!(get_sig_on(System::Bsd, "9"), 9);
}
