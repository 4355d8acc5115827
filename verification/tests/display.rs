use ret::arch::Architecture;
use ret::manager::{EnvManager, EnvManagerType};
use ret::r_installation::{RInstallationBuilder, RInstallationKind, RVersionsOverlay};

#[test]
fn installation_text_lists_fields_in_order() {
    let installation = RInstallationBuilder::new(Some(RInstallationKind::Conda))
        .display_name(Some("Production".to_string()))
        .executable(Some("/opt/R/bin/R".to_string()))
        .version(Some("4.4.1".to_string()))
        .home(Some("/opt/R".to_string()))
        .script_path(Some("/opt/R/bin/Rscript".to_string()))
        .arch(Some(Architecture::X64))
        .orthogonal(Some(false))
        .manager(Some(EnvManager::new("/opt/conda/bin/conda".to_string(), EnvManagerType::Conda, None)))
        .environment_variables(Some(vec![
            ("R_LIBS".to_string(), "/b".to_string()),
            ("A".to_string(), "1".to_string()),
            ("R_LIBS".to_string(), "/c".to_string()),
        ]))
        .rversions_overlay(Some(RVersionsOverlay {
            label: Some("Production".to_string()),
            script: None,
            repo: Some("https://repo".to_string()),
            library: None,
            module: None,
            module_startup_command: None,
        }))
        .build();
    let expected = [
        "R Installation (Conda)\n",
        "   Display-Name: Production\n",
        "   Executable  : /opt/R/bin/R\n",
        "   Version     : 4.4.1\n",
        "   Home        : /opt/R\n",
        "   Script Path : /opt/R/bin/Rscript\n",
        "   RVersions   : label=Production\n",
        "               : repo=https://repo\n",
        "   Architecture: x86_64\n",
        "   Orthogonal  : false\n",
        "   Manager     : Conda, /opt/conda/bin/conda\n",
        "   Env Vars    : A=1\n",
        "               : R_LIBS=/c\n",
        "   Known Executables: /opt/R/bin/R\n",
    ]
    .concat();
    assert_eq!(installation.display_text(), expected);
}

#[test]
fn unknown_kind_is_named_unknown() {
    let installation = RInstallationBuilder::new(None).error(Some("broken".to_string())).build();
    assert_eq!(installation.display_text(), "R Installation (Unknown)\n   Error       : broken\n");
}
