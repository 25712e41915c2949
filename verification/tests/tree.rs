use cch24::day_twentythree::{
    lockfile, ornament, present, render_sprinkle, Color, Lockfile, LockfileError, Package, State,
};

#[test]
fn colors_follow_each_other() {
    assert_eq!(Color::Red.next(), Color::Blue);
    assert_eq!(Color::Blue.next(), Color::Purple);
    assert_eq!(Color::Purple.next(), Color::Red);
    assert_eq!(Color::Red.as_str(), "red");
    assert_eq!(Color::Blue.as_str(), "blue");
    assert_eq!(Color::Purple.as_str(), "purple");
    assert_eq!(Color::Red.next().next().next(), Color::Red);
}

#[test]
fn states_alternate() {
    assert_eq!(State::On.next(), State::Off);
    assert_eq!(State::Off.next(), State::On);
    assert_eq!(State::On.as_str(), "on");
    assert_eq!(State::Off.as_str(), "off");
    assert_eq!(State::On.to_render(), " on");
    assert_eq!(State::Off.to_render(), "");
}

#[test]
fn present_names_its_color_and_the_next() {
    assert_eq!(
        present(Color::Red),
        "<div class=\"present red\" hx-get=\"/23/present/blue\" hx-swap=\"outerHTML\">\n  <div class=\"ribbon\"></div>\n  <div class=\"ribbon\"></div>\n  <div class=\"ribbon\"></div>\n  <div class=\"ribbon\"></div>\n</div>\n"
    );
    assert!(present(Color::Purple).starts_with(
        "<div class=\"present purple\" hx-get=\"/23/present/red\" hx-swap=\"outerHTML\">\n"
    ));
}

#[test]
fn ornament_switches_state() {
    assert_eq!(
        ornament(State::On, "1"),
        "<div class=\"ornament on\" id=\"ornament1\" hx-trigger=\"load delay:2s once\" hx-get=\"/23/ornament/off/1\" hx-swap=\"outerHTML\"></div>\n"
    );
    assert_eq!(
        ornament(State::Off, "7"),
        "<div class=\"ornament\" id=\"ornament7\" hx-trigger=\"load delay:2s once\" hx-get=\"/23/ornament/on/7\" hx-swap=\"outerHTML\"></div>\n"
    );
}

#[test]
fn ornament_escapes_its_number() {
    assert_eq!(
        ornament(State::Off, "\"><script>alert('x' & 1)</script>é"),
        "<div class=\"ornament\" id=\"ornament&quot;&gt;&lt;script&gt;alert(&#x27;x&#x27; &amp; 1)&lt;&#x2F;script&gt;é\" hx-trigger=\"load delay:2s once\" hx-get=\"/23/ornament/on/&quot;&gt;&lt;script&gt;alert(&#x27;x&#x27; &amp; 1)&lt;&#x2F;script&gt;é\" hx-swap=\"outerHTML\"></div>\n"
    );
}

#[test]
fn checksum_places_a_sprinkle() {
    assert_eq!(
        render_sprinkle("337789faa0372648a8ac286b2f92a53121fe118f12e29009ac504872a5413cc6"),
        Ok("<div style=\"background-color:#337789;top:250px;left:160px;\"></div>".to_string())
    );
    assert_eq!(
        render_sprinkle("ABCDEF0009"),
        Ok("<div style=\"background-color:#ABCDEF;top:0px;left:9px;\"></div>".to_string())
    );
    assert_eq!(
        render_sprinkle("00ff000aFFrest is not read"),
        Ok("<div style=\"background-color:#00ff00;top:10px;left:255px;\"></div>".to_string())
    );
    assert_eq!(
        render_sprinkle("0123456340"),
        Ok("<div style=\"background-color:#012345;top:99px;left:64px;\"></div>".to_string())
    );
}

#[test]
fn checksum_errors() {
    assert_eq!(render_sprinkle(""), Err(LockfileError::InvalidChecksum));
    assert_eq!(render_sprinkle("337789faa"), Err(LockfileError::InvalidChecksum));
    assert_eq!(render_sprinkle("33778éfaa0"), Err(LockfileError::InvalidChecksum));
    assert_eq!(render_sprinkle("3377890éa0"), Err(LockfileError::InvalidChecksum));
    assert_eq!(render_sprinkle("337789fa0é"), Err(LockfileError::InvalidChecksum));
    assert_eq!(render_sprinkle("33778gfaa0"), Err(LockfileError::InvalidColor));
    assert_eq!(render_sprinkle("é7789faa0b"), Err(LockfileError::InvalidColor));
    assert_eq!(render_sprinkle("337789fxa0"), Err(LockfileError::InvalidOffset));
    assert_eq!(render_sprinkle("337789faa "), Err(LockfileError::InvalidOffset));
    assert_eq!(render_sprinkle("zz7789fx"), Err(LockfileError::InvalidChecksum));
    assert_eq!(render_sprinkle("zz7789fxa0"), Err(LockfileError::InvalidColor));
}

fn package(checksum: Option<&str>) -> Package {
    Package { checksum: checksum.map(|s| s.to_string()) }
}

#[test]
fn lockfile_gives_a_line_for_each_checksum() {
    let file = Lockfile {
        package: vec![
            package(None),
            package(Some("337789faa0372648")),
            package(None),
            package(Some("ABCDEF0009")),
            package(Some("00ff000aFF")),
        ],
    };
    assert_eq!(
        lockfile(&file),
        Ok("<div style=\"background-color:#337789;top:250px;left:160px;\"></div>\n<div style=\"background-color:#ABCDEF;top:0px;left:9px;\"></div>\n<div style=\"background-color:#00ff00;top:10px;left:255px;\"></div>".to_string())
    );
    assert_eq!(lockfile(&Lockfile { package: vec![] }), Ok(String::new()));
    assert_eq!(lockfile(&Lockfile { package: vec![package(None)] }), Ok(String::new()));
}

#[test]
fn first_bad_checksum_decides() {
    let file = Lockfile {
        package: vec![
            package(Some("337789faa0372648")),
            package(Some("33778gfaa0")),
            package(Some("short")),
        ],
    };
    assert_eq!(lockfile(&file), Err(LockfileError::InvalidColor));
    let file = Lockfile {
        package: vec![package(None), package(Some("short")), package(Some("33778gfaa0"))],
    };
    assert_eq!(lockfile(&file), Err(LockfileError::InvalidChecksum));
    let file = Lockfile { package: vec![package(Some("337789..a0"))] };
    assert_eq!(lockfile(&file), Err(LockfileError::InvalidOffset));
}

/// Reads the packages of a lockfile text, keeping of each its checksum.
fn read_lockfile(text: &str) -> Lockfile {
    let file: toml::Value = toml::from_str(text).unwrap();
    let packages = file.get("package").and_then(|p| p.as_array()).unwrap();
    Lockfile {
        package: packages
            .iter()
            .map(|p| Package {
                checksum: p.get("checksum").and_then(|c| c.as_str()).map(|c| c.to_string()),
            })
            .collect(),
    }
}

#[test]
fn test_toml() {
    let text = "version = 3\n\n\
        [[package]]\n\
        name = \"addr2line\"\n\
        version = \"0.24.2\"\n\
        source = \"registry+https://github.com/rust-lang/crates.io-index\"\n\
        checksum = \"dfbe277e56a376000877090da837660b4427aad530e3028d44e0bffe4f89a1c1\"\n\
        dependencies = [\n \"gimli\",\n]\n\n\
        [[package]]\n\
        name = \"local\"\n\
        version = \"0.1.0\"\n\n\
        [[package]]\n\
        name = \"adler2\"\n\
        version = \"2.0.0\"\n\
        source = \"registry+https://github.com/rust-lang/crates.io-index\"\n\
        checksum = \"512761e0bb2578dd7380c6baaa0f4ce03e84f95e960231d1dec8bf4d7d6e2627\"\n";
    let file = read_lockfile(text);
    assert_eq!(file.package.len(), 3);
    assert_eq!(
        file.package[0].checksum.as_deref(),
        Some("dfbe277e56a376000877090da837660b4427aad530e3028d44e0bffe4f89a1c1")
    );
    assert_eq!(file.package[1].checksum, None);
    assert_eq!(
        lockfile(&file),
        Ok("<div style=\"background-color:#dfbe27;top:126px;left:86px;\"></div>\n<div style=\"background-color:#512761;top:224px;left:187px;\"></div>".to_string())
    );
}
