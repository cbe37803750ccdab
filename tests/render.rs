use dudo::render::{check_template, render, render_candidates, TemplateError};

#[test]
fn render_substitutes_all_three_fields() {
    let r = render(
        "https://example.com/{{version}}/tool-{{os}}-{{arch}}.tar.gz",
        "1.2.3-rc.1",
        "darwin",
        "amd64",
    )
    .ok()
    .unwrap();
    assert_eq!(r, "https://example.com/1.2.3-rc.1/tool-darwin-amd64.tar.gz");
}

#[test]
fn render_keeps_ascii_punctuation_verbatim() {
    let r = render("{{version}}|{{os}}|{{arch}}", "v0.9.0_a&b=c'd\"e<f>", "linux", "x86_64")
        .ok()
        .unwrap();
    assert_eq!(r, "v0.9.0_a&b=c'd\"e<f>|linux|x86_64");
}

#[test]
fn template_with_unknown_field_is_refused() {
    assert!(check_template("https://example.com/{{name}}", "1.0").is_err());
}

#[test]
fn malformed_template_is_refused() {
    assert!(check_template("https://example.com/{{version", "1.0").is_err());
}

#[test]
fn good_template_passes_the_check() {
    assert!(check_template("https://example.com/{{version}}/{{os}}/{{arch}}", "1.0").is_ok());
}

#[test]
fn candidates_keep_pair_order() {
    let ps = vec![
        ("linux".to_string(), "x86_64".to_string()),
        ("linux".to_string(), "amd64".to_string()),
    ];
    let v = render_candidates("{{os}}_{{arch}}_{{version}}", "2.0", ps).ok().unwrap();
    assert_eq!(v.len(), 2);
    assert_eq!(v[0].url, "linux_x86_64_2.0");
    assert_eq!(v[1].url, "linux_amd64_2.0");
    assert_eq!(v[1].os, "linux");
    assert_eq!(v[1].arch, "amd64");
}

#[test]
fn self_including_partial_is_refused_unrendered() {
    let t = "{{#*inline \"a\"}}{{> a}}{{/inline}}{{> a}}";
    assert!(matches!(check_template(t, "1.0"), Err(TemplateError::PartialCall)));
    assert!(matches!(render(t, "1.0", "linux", "x86_64"), Err(TemplateError::PartialCall)));
}

#[test]
fn unknown_field_is_a_render_error() {
    assert!(matches!(check_template("{{name}}", "1.0"), Err(TemplateError::Render(_))));
}
