use pobbin::config::Config;
use pobbin::error::{Error, ErrorResponse};
use pobbin::http::Method;
use pobbin::meta::{get_color, mask_hydration_markers, Meta};
use pobbin::model::{Gem, Skill};
use pobbin::router::{is_download_url, is_pob_download_url, is_raw_download_url};

fn gem(name: &str, skill_id: Option<&str>, gem_id: Option<&str>) -> Gem {
    Gem {
        name: name.to_string(),
        skill_id: skill_id.map(|s| s.to_string()),
        gem_id: gem_id.map(|s| s.to_string()),
        level: 20,
        quality: 0,
    }
}

#[test]
fn gem_support_comes_from_gem_id_first() {
    let g = gem("Whatever", None, Some("Metadata/Items/Gems/SupportGemAddedFire"));
    assert!(g.is_support());
    assert!(!g.is_active());
    let g = gem("Support Sounding Name", None, Some("Metadata/Items/Gems/Fireball"));
    assert!(!g.is_support(), "the gem id decides, not the name");
}

#[test]
fn gem_support_falls_back_to_skill_id_then_name() {
    let g = gem("Whatever", Some("SupportAddedFire"), None);
    assert!(g.is_support());
    let g = gem("Whatever", Some("Fireball"), None);
    assert!(!g.is_support());
    let g = gem("Added Fire Support", None, None);
    assert!(g.is_support());
    let g = gem("Fireball", None, None);
    assert!(!g.is_support());
    assert!(g.is_active());
}

#[test]
fn skill_splits_gems_by_kind() {
    let skill = Skill {
        main_active_skill: 1,
        enabled: true,
        label: None,
        slot: Some("Weapon 1".to_string()),
        gems: vec![
            gem("Fireball", None, None),
            gem("Added Fire Support", None, None),
            gem("Arc", None, None),
        ],
    };
    let active = skill.active_gems();
    assert_eq!(active.len(), 2);
    assert_eq!(active[0].name, "Fireball");
    assert_eq!(active[1].name, "Arc");
    let support = skill.support_gems();
    assert_eq!(support.len(), 1);
    assert_eq!(support[0].name, "Added Fire Support");
}

#[test]
fn meta_constructors_fill_the_pages() {
    let m = Meta::index();
    assert_eq!(m.title, "POB B.in - Share your Path of Exile build");
    assert_eq!(m.color, "#0ea5e9");
    assert_eq!(m.image, "");
    let m = Meta::not_found();
    assert_eq!(m.title, "POB B.in - Not Found");
    let m = Meta::server_error();
    assert_eq!(m.title, "POB B.in - Server Error");
    let m = Meta::default();
    assert_eq!(m.title, "POB B.in - Share your Path of Exile build");
}

#[test]
fn ascendancy_colors() {
    assert_eq!(get_color("Slayer"), "#96afc8");
    assert_eq!(get_color("Berserker"), "#af5a32");
    assert_eq!(get_color("Necromancer"), "#9ac3c9");
    assert_eq!(get_color("Ascendant"), "#cccccc");
    assert_eq!(get_color("Unknown"), "#0ea5e9");
    assert_eq!(get_color(""), "#0ea5e9");
}

#[test]
fn config_names() {
    assert_eq!(Config::Boss.name(), "enemyIsBoss");
    assert_eq!(Config::WitherStacks.name(), "multiplierWitheredStackCount");
    assert_eq!(Config::PowerChargesAmount.name(), "overrideFrenzyCharges");
    assert!(Config::Boss.matches_name("enemyIsBoss"));
    assert!(!Config::Boss.matches_name("enemyHit"));
}

#[test]
fn raw_download_urls() {
    assert_eq!(is_raw_download_url("/abc/raw"), Some("abc".to_string()));
    assert_eq!(is_raw_download_url("//abc/raw"), Some("abc".to_string()));
    assert_eq!(is_raw_download_url("/abc/def/raw"), None);
    assert_eq!(is_raw_download_url("/abc"), None);
    assert_eq!(is_raw_download_url("/abc/notraw"), None);
}

#[test]
fn pob_download_urls() {
    assert_eq!(is_pob_download_url("/pob/xyz"), Some("xyz".to_string()));
    assert_eq!(is_pob_download_url("/pob/"), Some("".to_string()));
    assert_eq!(is_pob_download_url("/other/xyz"), None);
    assert_eq!(is_pob_download_url("nopath"), None);
}

#[test]
fn download_urls_require_get() {
    assert_eq!(is_download_url("/abc/raw", Method::Get), Some("abc".to_string()));
    assert_eq!(is_download_url("/abc/raw", Method::Post), None);
    assert_eq!(is_download_url("/pob/abc", Method::Get), Some("abc".to_string()));
    assert_eq!(is_download_url("/oembed.json", Method::Get), None);
}

#[test]
fn error_codes_and_wire_shape() {
    assert_eq!(Error::BadRequest("x".to_string()).code(), 400);
    assert_eq!(Error::InvalidPaste("x".to_string(), "y".to_string()).code(), 400);
    assert_eq!(Error::NotFound("id".to_string()).code(), 404);
    assert_eq!(Error::StorageError("x".to_string()).code(), 502);
    assert_eq!(Error::InternalError("x".to_string()).code(), 500);

    assert!(!Error::BadRequest("x".to_string()).is_server_class());
    assert!(Error::StorageError("x".to_string()).is_server_class());
    assert!(Error::InternalError("x".to_string()).is_server_class());

    let r = ErrorResponse::from_error(&Error::NotFound("id".to_string()));
    assert_eq!(r.code, 404);
    assert_eq!(r.message, "not found");
    let r = ErrorResponse::from_error(&Error::BadRequest("Paste too large".to_string()));
    assert_eq!(r.code, 400);
    assert_eq!(r.message, "Paste too large");
}

#[test]
fn hydration_markers_are_masked() {
    let html = b"<div data-hk=\"0.0\"><span data-hk=\"0.1\"/></div>".to_vec();
    let masked = mask_hydration_markers(&html);
    assert_eq!(
        masked,
        b"<div data-xx=\"0.0\"><span data-xx=\"0.1\"/></div>".to_vec()
    );
    let clean = b"<div class=\"x\"/>".to_vec();
    assert_eq!(mask_hydration_markers(&clean), clean);
    let short = b"data".to_vec();
    assert_eq!(mask_hydration_markers(&short), short);
    let edge = b"xx data-hk".to_vec();
    assert_eq!(mask_hydration_markers(&edge), b"xx data-xx".to_vec());
}
