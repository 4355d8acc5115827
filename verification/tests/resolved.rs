use ret::arch::Architecture;
use ret::resolved::{
    is_rscript, parse_installation_details, parse_startup_output, probe_arguments, r_info_command,
    resolve_with_startup, split_after, startup_probe_script,
};

#[test]
fn resolving_x86_metadata_keeps_the_x86_binary() {
    let exe = "/tmp/r/bin/i386/R.exe";
    let output = "ret-r-installation-info\n4.1.3\n/tmp/r\ni386\n";
    let resolved = parse_installation_details(exe, output, &None, vec![]).unwrap();
    assert_eq!(resolved.executable, exe);
    assert_eq!(resolved.arch, Architecture::X86);
    assert_eq!(resolved.version, "4.1.3");
    assert_eq!(resolved.home, "/tmp/r");
    assert_eq!(resolved.known_executables, Some(vec![exe.to_string()]));
    assert!(resolved.symlinks.is_none());
}

#[test]
fn details_follow_the_separator_and_skip_blank_lines() {
    let output = "noise\nret-r-installation-info\n\n 4.4.1 \n/opt/R/4.4.1/lib/R\n\naarch64-apple-darwin20\n";
    let resolved = parse_installation_details(
        "/usr/local/bin/R",
        output,
        &Some("/opt/R/4.4.1/bin/R".to_string()),
        vec!["/usr/local/bin/R".to_string()],
    )
    .unwrap();
    assert_eq!(resolved.version, "4.4.1");
    assert_eq!(resolved.home, "/opt/R/4.4.1/lib/R");
    assert_eq!(resolved.arch, Architecture::Arm64);
    assert_eq!(
        resolved.known_executables,
        Some(vec!["/opt/R/4.4.1/bin/R".to_string(), "/usr/local/bin/R".to_string()])
    );
    assert_eq!(resolved.symlinks, Some(vec!["/usr/local/bin/R".to_string()]));
}

#[test]
fn details_are_refused_without_separator_lines_or_known_arch() {
    assert!(parse_installation_details("/R", "4.4.1\n/opt/R\nx86_64\n", &None, vec![]).is_none());
    assert!(parse_installation_details("/R", "ret-r-installation-info\n4.4.1\n/opt/R\n", &None, vec![]).is_none());
    assert!(parse_installation_details("/R", "ret-r-installation-info\n4.4.1\n/opt/R\nsparc\n", &None, vec![]).is_none());
    let amd = parse_installation_details("/R", "ret-r-installation-info\n4.4.1\n/opt/R\nAMD64\n", &None, vec![]);
    assert_eq!(amd.unwrap().arch, Architecture::X64);
}

#[test]
fn rscript_takes_the_expression_without_silent_flag() {
    assert!(is_rscript("/usr/bin/Rscript"));
    assert!(is_rscript("C:/R/bin/RSCRIPT.exe"));
    assert!(!is_rscript("/usr/bin/R"));
    assert_eq!(probe_arguments("/usr/bin/Rscript"), vec!["--vanilla", "-e", r_info_command()]);
    assert_eq!(probe_arguments("/usr/bin/R"), vec!["--vanilla", "-s", "-e", r_info_command()]);
}

#[test]
fn split_after_takes_text_after_first_separator() {
    assert_eq!(split_after("a=b=c", "="), Some("b=c".to_string()));
    assert_eq!(split_after("abc", "="), None);
}

#[test]
fn startup_script_quotes_the_executable() {
    let script = startup_probe_script(&Some("/opt/my R/bin/R".to_string()), "module load R");
    assert!(script.starts_with("module load R && _ret_r_exe='/opt/my R/bin/R' && [ -n \"$_ret_r_exe\" ]"));
    assert!(script.ends_with(";; esac"));
    let default = startup_probe_script(&None, "source activate");
    assert!(default.starts_with("source activate && _ret_r_exe=$(command -v R) && "));
}

#[test]
fn startup_output_names_the_launcher_then_the_details() {
    let stdout = "loading\nret-r-launcher\n/opt/R/bin/R\r\nret-r-installation-info\n4.3.0\n/opt/R\nx86_64\n";
    let (exe, info) = parse_startup_output(stdout).unwrap();
    assert_eq!(exe, "/opt/R/bin/R");
    assert_eq!(info, "ret-r-installation-info\n4.3.0\n/opt/R\nx86_64\n");
    let resolved = resolve_with_startup(stdout, &None, vec![]).unwrap();
    assert_eq!(resolved.executable, "/opt/R/bin/R");
    assert_eq!(resolved.version, "4.3.0");
    assert_eq!(resolved.arch, Architecture::X64);
    assert!(resolve_with_startup("no marker", &None, vec![]).is_none());
    assert!(resolve_with_startup("ret-r-launcher\n/opt/R/bin/R\nbroken", &None, vec![]).is_none());
}
