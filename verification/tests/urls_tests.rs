use fetch_cache::urls::{
    api_url, builds_url, burst_url, calculations_url, character_art_url, constellation_url,
    icon_url, normal_attack_icon, refresh_url, short_name_of, skill_url, starts_with_http,
};

#[test]
fn normal_attack_icon_by_weapon_type() {
    assert_eq!(normal_attack_icon("WeAPON_SWORD_ONE_HAND"), "Skill_A_01");
    assert_eq!(normal_attack_icon("WeAPON_BOW"), "Skill_A_02");
    assert_eq!(normal_attack_icon("WeAPON_POLE"), "Skill_A_03");
    assert_eq!(normal_attack_icon("WeAPON_CLAYMORE"), "Skill_A_04");
    assert_eq!(normal_attack_icon("WeAPON_CATALYST"), "Skill_A_05");
    // anything unknown falls back to the sword icon
    assert_eq!(normal_attack_icon(""), "Skill_A_01");
}

#[test]
fn short_name_is_after_last_underscore_before_dot() {
    assert_eq!(short_name_of("UI_AvatarIcon_Hutao"), "Hutao");
    assert_eq!(short_name_of("UI_AvatarIcon_Hutao.png"), "Hutao");
    assert_eq!(short_name_of("Hutao"), "Hutao");
    assert_eq!(short_name_of("Hutao.png"), "Hutao");
    assert_eq!(short_name_of("a_b_c"), "c");
    assert_eq!(short_name_of("trailing_"), "");
    assert_eq!(short_name_of(""), "");
    assert_eq!(short_name_of("_x.y.z"), "x");
}

#[test]
fn api_url_appends_to_base() {
    assert_eq!(
        api_url("/getCalculationsForUser/901211014"),
        "https://akasha.cv/api/getCalculationsForUser/901211014"
    );
}

#[test]
fn builds_url_exact() {
    assert_eq!(
        builds_url("901211014"),
        "https://akasha.cv/api/builds/?sort=critValue&order=-1&size=20&page=1&filter=&uids=&p=&fromId=&li=&uid=901211014"
    );
}

#[test]
fn calculations_url_exact() {
    assert_eq!(
        calculations_url("901211014"),
        "https://akasha.cv/api/getCalculationsForUser/901211014"
    );
}

#[test]
fn refresh_url_exact() {
    assert_eq!(
        refresh_url("901211014"),
        "https://akasha.cv/api/user/refresh/901211014"
    );
}

#[test]
fn short_icon_name_resolves_under_icon_base() {
    assert_eq!(
        icon_url("UI_AvatarIcon_Hutao"),
        "https://enka.network/ui/UI_AvatarIcon_Hutao.png"
    );
}

#[test]
fn full_url_is_used_verbatim() {
    assert_eq!(
        icon_url("https://example.test/pic.png"),
        "https://example.test/pic.png"
    );
    assert_eq!(icon_url("http://example.test/p.jpg"), "http://example.test/p.jpg");
}

#[test]
fn http_prefix_edge_cases() {
    assert!(starts_with_http("http"));
    assert!(starts_with_http("https://x"));
    assert!(!starts_with_http("htt"));
    assert!(!starts_with_http(""));
    assert!(!starts_with_http("xhttp"));
    // exactly the four characters: used verbatim
    assert_eq!(icon_url("http"), "http");
    // one short: treated as a short name
    assert_eq!(icon_url("htt"), "https://enka.network/ui/htt.png");
}

#[test]
fn constellation_urls_are_zero_padded() {
    assert_eq!(
        constellation_url("Hutao", 1),
        "https://enka.network/ui/UI_Talent_S_Hutao_01.png"
    );
    assert_eq!(
        constellation_url("Hutao", 6),
        "https://enka.network/ui/UI_Talent_S_Hutao_06.png"
    );
}

#[test]
fn talent_and_art_urls_exact() {
    assert_eq!(skill_url("Hutao"), "https://enka.network/ui/Skill_S_Hutao_01.png");
    assert_eq!(burst_url("Hutao"), "https://enka.network/ui/Skill_E_Hutao_01.png");
    assert_eq!(
        character_art_url("Hutao"),
        "https://enka.network/ui/UI_Gacha_AvatarImg_Hutao.png"
    );
}
