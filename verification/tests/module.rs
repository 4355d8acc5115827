use ret::locators::module::{build_module_startup_command, looks_like_module_path, module_load_script, parse_r_modules, parse_which_output};

#[test]
fn recognizes_module_paths() {
    assert!(looks_like_module_path("/opt/apps/R/4.3.0/lib/R"));
    assert!(looks_like_module_path("/software/R/4.3.0-GCC-12.2.0/lib/R"));
    assert!(looks_like_module_path("/modules/R/4.3.0/bin/R"));
    assert!(!looks_like_module_path("/usr/bin/R"));
    assert!(!looks_like_module_path("/opt/R/4.3.0/bin/R"));
}

#[test]
fn startup_command_loads_the_module() {
    assert_eq!(
        build_module_startup_command("/usr/share/lmod/lmod/libexec/lmod", "R/4.3.0"),
        "eval $(/usr/share/lmod/lmod/libexec/lmod sh load R/4.3.0)"
    );
    assert_eq!(
        module_load_script("/usr/bin/modulecmd", "R/4.4.1"),
        "eval $(/usr/bin/modulecmd sh load R/4.4.1) 2>/dev/null && which R"
    );
}

#[test]
fn avail_listing_keeps_r_modules_only() {
    let listing = "/opt/modulefiles:\nR/4.3.0(default)\nr-lib/1.0\nR-base/4.2\nRStudio/2023\nR/4.4.1(D)  \n  r-devel/2024 extra\npython/3.11\n";
    assert_eq!(parse_r_modules("", listing), vec!["R/4.3.0", "R/4.4.1", "r-devel/2024"]);
    assert_eq!(parse_r_modules("R/4.2.0\n", ""), vec!["R/4.2.0"]);
}

#[test]
fn which_output_is_trimmed() {
    assert_eq!(parse_which_output("/opt/apps/R/4.3.0/bin/R\n").as_deref(), Some("/opt/apps/R/4.3.0/bin/R"));
    assert_eq!(parse_which_output("  \n"), None);
}
