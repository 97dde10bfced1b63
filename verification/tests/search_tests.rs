use enigma::search::match_abbrev;

#[test]
fn match_abbrev_should_pass() {
    assert_eq!(true, match_abbrev("ProjectileSpawnLocation", "ProjSpLoc"));
    assert_eq!(true, match_abbrev("ProjectileSpawnLocation", "PSL"));
    assert_eq!(true, match_abbrev("ProjectileSpawnLocation", "ProjS"));
    assert_eq!(true, match_abbrev("ProjectileSpawnLocation", "ProLoc"));
    assert_eq!(true, match_abbrev("ProjectileSpawnLocation", "SLoc"));
    assert_eq!(true, match_abbrev("ProjectileSpawnLocation", "P"));
    assert_eq!(true, match_abbrev("ProjectileSpawnLocation", "proj"));
}

#[test]
fn match_abbrev_should_fail() {
    assert_eq!(false, match_abbrev("ProjectileSpawnLocation", "ProjSpLc"));
    assert_eq!(false, match_abbrev("ProjectileSpawnLocation", "PSLC"));
}

#[test]
fn match_abbrev_is_order_sensitive() {
    assert_eq!(true, match_abbrev("ProjectileSpawnLocation", "SLoc"));
    assert_eq!(false, match_abbrev("ProjectileSpawnLocation", "LocS"));
}

#[test]
fn match_abbrev_accepts_every_nonempty_prefix() {
    let value = "ProjectileSpawnLocation";
    for n in 1..=value.len() {
        assert_eq!(true, match_abbrev(value, &value[..n]));
    }
}

#[test]
fn match_abbrev_is_case_insensitive_on_prefixes_only() {
    assert_eq!(true, match_abbrev("ProjectileSpawnLocation", "pRoJeCt"));
    assert_eq!(false, match_abbrev("ProjectileSpawnLocation", "spawnlocation"));
}
