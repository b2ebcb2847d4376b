use wallrust::config::ColorProfile;
use wallrust::css::css_string;
use wallrust::dcol::dcol_string;
use wallrust::palette::Palette;
use wallrust::template::{parse_template_directives, TemplateDirectives};
use wallrust::wallpaper::{getvar_wallpaper, hyprpaper_wallpaper};

fn lines(ls: &[&str]) -> Vec<String> {
    ls.iter().map(|l| l.to_string()).collect()
}

#[test]
fn no_directives_by_default() {
    let d = parse_template_directives(&lines(&["background = {{ primary[0] }}", ""]));
    assert_eq!(d, TemplateDirectives { output_path: None, backup: false });
    assert_eq!(parse_template_directives(&vec![]), TemplateDirectives { output_path: None, backup: false });
}

#[test]
fn output_and_backup_directives() {
    let d = parse_template_directives(&lines(&[
        "  {# output: ~/.config/kitty/colors.conf #}  ",
        "{# backup: TRUE #}",
    ]));
    assert_eq!(d.output_path, Some("~/.config/kitty/colors.conf".to_string()));
    assert!(d.backup);
    let d = parse_template_directives(&lines(&["#!output: /tmp/x.css", "#!backup: false"]));
    assert_eq!(d.output_path, Some("/tmp/x.css".to_string()));
    assert!(!d.backup);
    let d = parse_template_directives(&lines(&["#!backup: True"]));
    assert!(d.backup);
}

#[test]
fn unterminated_directive_is_ignored() {
    let d = parse_template_directives(&lines(&["{# output: /a", "{# backup: true"]));
    assert_eq!(d, TemplateDirectives { output_path: None, backup: false });
}

#[test]
fn later_directive_wins_and_only_five_lines_count() {
    let d = parse_template_directives(&lines(&["#!output: /a", "#!output: /b"]));
    assert_eq!(d.output_path, Some("/b".to_string()));
    let d = parse_template_directives(&lines(&["", "", "", "", "", "#!output: /late"]));
    assert_eq!(d.output_path, None);
}

#[test]
fn dcol_lists_every_field() {
    let p = Palette {
        mode: "dark".to_string(),
        wallpaper: "/w.png".to_string(),
        primary: vec!["000000".to_string()],
        text: vec!["FFFFFF".to_string()],
        accents: vec![vec!["111111".to_string(), "222222".to_string()]],
        primary_rgba: vec!["rgba(0,0,0,\\1)".to_string()],
        text_rgba: vec!["rgba(255,255,255,\\1)".to_string()],
        accents_rgba: vec![vec!["rgba(17,17,17,\\1)".to_string()]],
        is_dark: true,
    };
    let expected = "dcol_mode=\"dark\"\n\
dcol_wallpaper=\"/w.png\"\n\
dcol_pry1=\"000000\"\n\
dcol_pry1_rgba=\"rgba(0,0,0,\\1)\"\n\
dcol_txt1=\"FFFFFF\"\n\
dcol_txt1_rgba=\"rgba(255,255,255,\\1)\"\n\
dcol_1xa1=\"111111\"\n\
dcol_1xa1_rgba=\"rgba(17,17,17,\\1)\"\n\
dcol_1xa2=\"222222\"\n\
\n";
    assert_eq!(dcol_string(&p), expected);
}

#[test]
fn hyprpaper_listactive_path() {
    let out = "noise\nWallpaper /home/u/pic.png on monitor DP-1\nWallpaper /other.png on monitor HDMI";
    assert_eq!(hyprpaper_wallpaper(out), Some("/home/u/pic.png".to_string()));
    assert_eq!(hyprpaper_wallpaper("Wallpaper  /a b.png  "), Some("/a b.png".to_string()));
    assert_eq!(hyprpaper_wallpaper("x Wallpaper /a.png Wallpaper /b.png"), Some("/a.png".to_string()));
    assert_eq!(hyprpaper_wallpaper("no active wallpapers"), None);
}

#[test]
fn getvar_wallpaper_path() {
    assert_eq!(getvar_wallpaper("str: /home/u/pic.png\n"), Some("/home/u/pic.png".to_string()));
    assert_eq!(getvar_wallpaper("a: b: c"), Some("b: c".to_string()));
    assert_eq!(getvar_wallpaper("nothing"), None);
}

#[test]
fn profile_names() {
    assert_eq!(ColorProfile::Default.name(), "default");
    assert_eq!(ColorProfile::Custom("1 1".to_string()).name(), "custom");
}

#[test]
fn css_declares_colors() {
    let p = Palette {
        mode: "light".to_string(),
        wallpaper: "/w.png".to_string(),
        primary: vec!["AAAAAA".to_string(), "BBBBBB".to_string()],
        text: vec!["111111".to_string(), "222222".to_string()],
        accents: vec![vec!["C1C1C1".to_string(), "C2C2C2".to_string()], vec!["D1D1D1".to_string()]],
        primary_rgba: vec![],
        text_rgba: vec![],
        accents_rgba: vec![],
        is_dark: false,
    };
    let expected = [
        "/* Wallbash Palette */",
        "/* Wallpaper: /w.png */",
        "/* Mode: light */",
        ":root {",
        "  --pry: #AAAAAA;",
        "  --txt: #111111;",
        "  --pry1: #AAAAAA;",
        "  --txt1: #111111;",
        "  --pry2: #BBBBBB;",
        "  --txt2: #222222;",
        "  --xa1: #C1C1C1;",
        "  --xa2: #C2C2C2;",
        "}",
        "",
    ]
    .join("\n");
    assert_eq!(css_string(&p), expected);
}
