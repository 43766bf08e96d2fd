use contents_exporter::contents::{export_contents, place};
use contents_exporter::error::ExportError;
use contents_exporter::Format;

#[test]
fn zenn_to_hugo_is_the_supported_conversion() {
    let conversion =
        export_contents(Format::Zenn, Format::HugoRobust, "in".to_string(), "out".to_string());
    let conversion = conversion.ok().unwrap();
    assert_eq!(conversion.source_dirpath, "in");
    assert_eq!(conversion.target_dirpath, "out");
}

#[test]
fn every_other_pair_is_refused() {
    for (source, target) in [
        (Format::HugoRobust, Format::Zenn),
        (Format::HugoRobust, Format::HugoRobust),
        (Format::Zenn, Format::Zenn),
    ] {
        let refused = export_contents(source, target, ".".to_string(), ".".to_string());
        assert_eq!(refused.err(), Some(ExportError::UnsupportedConversion));
    }
}

#[test]
fn plan_names_patterns_and_directories() {
    let conversion =
        export_contents(Format::Zenn, Format::HugoRobust, ".".to_string(), "site".to_string());
    let plan = conversion.ok().unwrap().export_contents();
    assert_eq!(plan.articles_pattern, "./articles/**/*.md");
    assert_eq!(plan.images_pattern, "./images/*");
    assert_eq!(plan.articles_dirpath, "site/content");
    assert_eq!(plan.images_dirpath, "site/static/img");
}

#[test]
fn plan_keeps_a_trailing_slash_single() {
    let conversion =
        export_contents(Format::Zenn, Format::HugoRobust, "/blog/".to_string(), "".to_string());
    let plan = conversion.ok().unwrap().export_contents();
    assert_eq!(plan.articles_pattern, "/blog/articles/**/*.md");
    assert_eq!(plan.images_pattern, "/blog/images/*");
    assert_eq!(plan.articles_dirpath, "content");
    assert_eq!(plan.images_dirpath, "static/img");
}

#[test]
fn files_keep_their_names() {
    let conversion =
        export_contents(Format::Zenn, Format::HugoRobust, ".".to_string(), "site".to_string());
    let plan = conversion.ok().unwrap().export_contents();
    assert_eq!(plan.article_path("./articles/2024/first.md"), Ok("site/content/first.md".to_string()));
    assert_eq!(plan.image_path("./images/pic.png"), Ok("site/static/img/pic.png".to_string()));
    assert_eq!(plan.article_path("./articles/.."), Err(ExportError::MalformedInput));
    assert_eq!(plan.image_path(""), Err(ExportError::MalformedInput));
    assert_eq!(place("a/b", "c/d.txt"), Ok("a/b/d.txt".to_string()));
}
