//! The plugin entry descriptor and the parsing of the plugin
//! declaration's arguments.

use llvm_plugin::plugin_entry::{
    make_plugin_info, parse_plugin_args, plugin_info_from_args, PluginArg, PluginArgsError,
};

fn arg(key: &[u8], value: &[u8]) -> PluginArg {
    PluginArg { key: key.to_vec(), value: value.to_vec() }
}

#[test]
fn descriptor_null_terminates_name_and_version() {
    let info = make_plugin_info(b"demo", b"0.1", 12);
    assert_eq!(info.api_version, 12);
    assert_eq!(info.plugin_name, b"demo\0".to_vec());
    assert_eq!(info.plugin_version, b"0.1\0".to_vec());
}

#[test]
fn well_formed_declaration_yields_descriptor() {
    let args = vec![arg(b"name", b"plugin_name"), arg(b"version", b"0.1")];
    let info = plugin_info_from_args(&args, 3).unwrap();
    assert_eq!(info.api_version, 3);
    assert_eq!(info.plugin_name, b"plugin_name\0".to_vec());
    assert_eq!(info.plugin_version, b"0.1\0".to_vec());
}

#[test]
fn missing_arguments_are_reported() {
    let no_args: Vec<PluginArg> = vec![];
    assert!(matches!(plugin_info_from_args(&no_args, 1), Err(PluginArgsError::MissingArgs)));

    let only_name = vec![arg(b"name", b"demo")];
    assert!(matches!(plugin_info_from_args(&only_name, 1), Err(PluginArgsError::MissingArgs)));
}

#[test]
fn wrong_argument_keys_are_reported() {
    let wrong_first = vec![arg(b"title", b"demo"), arg(b"version", b"0.1")];
    assert!(matches!(
        plugin_info_from_args(&wrong_first, 1),
        Err(PluginArgsError::ExpectedNameArg)
    ));

    let wrong_second = vec![arg(b"name", b"demo"), arg(b"release", b"0.1")];
    assert!(matches!(
        plugin_info_from_args(&wrong_second, 1),
        Err(PluginArgsError::ExpectedVersionArg)
    ));
}

#[test]
fn parse_plugin_args_mirrors_the_declaration_shapes() {
    let no_args: Vec<PluginArg> = vec![];
    assert!(parse_plugin_args(&no_args).is_none());

    let only_name = vec![arg(b"name", b"demo")];
    assert!(parse_plugin_args(&only_name).is_none());

    let good = vec![arg(b"name", b"demo"), arg(b"version", b"2.0")];
    let (name, version) = parse_plugin_args(&good).unwrap().unwrap();
    assert_eq!(name, b"demo".to_vec());
    assert_eq!(version, b"2.0".to_vec());

    let bad = vec![arg(b"version", b"2.0"), arg(b"name", b"demo")];
    assert_eq!(
        parse_plugin_args(&bad).unwrap().unwrap_err(),
        PluginArgsError::ExpectedNameArg
    );
}
