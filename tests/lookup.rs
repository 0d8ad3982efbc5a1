use env_config::{Duration, EnvConfig, Environment};

#[test]
fn test_var_init_bool() {
    let env = Environment::new();
    let x: bool = EnvConfig::get(&env, "xyz", Some(true)).unwrap();
    assert!(x == true)
}

#[test]
fn test_var_init_number() {
    let env = Environment::new();
    let x: i32 = EnvConfig::get(&env, "xyz", Some(100)).unwrap();
    assert!(x == 100)
}

#[test]
fn test_var_init_number_2() {
    let mut env = Environment::new();
    env.set("TEST_ABCD", "150");
    let x: i32 = EnvConfig::get(&env, "TEST_ABCD", None).unwrap();
    assert!(x == 150)
}

#[test]
fn test_var_init_number_3() {
    let env = Environment::new();
    let x: Option<i64> = EnvConfig::get(&env, "TEST_ABCD_EFG", None);
    assert!(x.is_none())
}

#[test]
fn test_var_init_duration() {
    let mut env = Environment::new();
    env.set("TEST_DUR1", "15s");
    let x: Duration = EnvConfig::get(&env, "TEST_DUR1", None).unwrap();
    assert!(x.as_secs() == 15)
}

#[test]
fn test_var_init_duration_m() {
    let mut env = Environment::new();
    env.set("TEST_DUR2", "10m");
    let x: Duration = EnvConfig::get(&env, "TEST_DUR2", None).unwrap();
    assert!(x.as_secs() == 600)
}

#[test]
fn test_var_init_duration_h() {
    let mut env = Environment::new();
    env.set("TEST_DUR3", "10h");
    let x: Duration = EnvConfig::get(&env, "TEST_DUR3", None).unwrap();
    assert!(x.as_secs() == 36000)
}

#[test]
fn test_var_init_duration_d() {
    let mut env = Environment::new();
    env.set("TEST_DUR3", "2d");
    let x: Duration = EnvConfig::get(&env, "TEST_DUR3", None).unwrap();
    assert!(x.as_secs() == 172800)
}
