use arui_core::ProjectConfig;

#[test]
fn test_init_config() {
    let config = ProjectConfig::new();
    println!("{:?}", config);
    assert_eq!(config.includes.len(), 0);
    assert_eq!(config.excludes.len(), 0);
}

#[test]
fn test_width_include() {
    let config = ProjectConfig::new()
        .add_includes(vec!["./src"])
        .add_excludes(vec!["./node_modules", "./dist"]);
    println!("{:?}", config);
    assert_eq!(config.includes.len(), 1);
    assert_eq!(config.excludes.len(), 2);
    let config = config.add_include("123").add_exclude("321");
    println!("{:?}", config);
    assert_eq!(config.includes.len(), 2);
    assert_eq!(config.excludes.len(), 3);
}

#[test]
fn test_width_include_string() {
    let config = ProjectConfig::new()
        .add_includes(vec!["./src".to_string()])
        .add_excludes(vec!["./node_modules".to_string(), "./dist".to_string()]);
    println!("{:?}", config);
    assert_eq!(config.includes.len(), 1);
    assert_eq!(config.excludes.len(), 2);
    let config = config.add_include("123".to_string()).add_exclude("321".to_string());
    println!("{:?}", config);
    assert_eq!(config.includes.len(), 2);
    assert_eq!(config.excludes.len(), 3);
}

#[test]
fn test_clear() {
    let mut config = ProjectConfig::new()
        .add_excludes(vec!["123", "1231"])
        .add_includes(vec!["1111"]);
    config = config.clear_include().clear_exclude();
    println!("{:?}", config);
    assert_eq!(config.includes.len(), 0);
    assert_eq!(config.excludes.len(), 0);
}
