use contents_exporter::contents::hugo_robust::HugoRobust;
use contents_exporter::contents::zenn::Zenn;
use contents_exporter::contents::ContentsFormat;
use contents_exporter::error::ExportError;
use contents_exporter::front_matter::{FieldMap, FrontMatter};
use contents_exporter::key_values::parse_fields;

fn model(title: &str, published_at: &str) -> FrontMatter {
    let mut fields = FieldMap::new();
    fields.insert("title".to_string(), title.to_string());
    fields.insert("published_at".to_string(), published_at.to_string());
    FrontMatter::new(fields)
}

#[test]
fn hugo_names_its_directories_and_fence() {
    let hugo = HugoRobust::new();
    assert_eq!(hugo.get_articles_dirname(), "content");
    assert_eq!(hugo.get_images_dirname(), "static/img");
    assert_eq!(hugo.get_front_matter_delimiter(), "+++");
}

#[test]
fn zenn_names_its_directories_and_fence() {
    let zenn = Zenn::new();
    assert_eq!(zenn.get_articles_dirname(), "articles");
    assert_eq!(zenn.get_images_dirname(), "images");
    assert_eq!(zenn.get_front_matter_delimiter(), "+++");
}

#[test]
fn hugo_writes_date_title_and_thumbnail() {
    let text = HugoRobust::new().format_front_matter(model("T", "2024-01-01")).unwrap();
    assert_eq!(text, "\n+++\ndate = \"2024-01-01\"\ntitle = \"T\"\nthumbnail = \"\"\n+++\n");
}

#[test]
fn hugo_writes_image_paths_below_img() {
    assert_eq!(HugoRobust::new().format_image_path("pic.png"), Ok("/img/pic.png".to_string()));
    assert_eq!(HugoRobust::new().format_image_path(""), Ok("/img/".to_string()));
}

#[test]
fn hugo_is_no_source() {
    let hugo = HugoRobust::new();
    assert_eq!(
        hugo.is_local_image("./img/pic.png".to_string()),
        Err(ExportError::UnimplementedAdapterOperation)
    );
    assert_eq!(
        hugo.parse_front_matter("+++\ntitle = \"T\"\n+++\n".to_string()).err(),
        Some(ExportError::UnimplementedAdapterOperation)
    );
}

#[test]
fn zenn_is_no_target() {
    let zenn = Zenn::new();
    assert_eq!(
        zenn.format_front_matter(model("T", "2024-01-01")),
        Err(ExportError::UnimplementedAdapterOperation)
    );
    assert_eq!(zenn.format_image_path("pic.png"), Err(ExportError::UnimplementedAdapterOperation));
}

#[test]
fn zenn_classifies_links() {
    let zenn = Zenn::new();
    assert_eq!(zenn.is_local_image("./img/pic.png".to_string()), Ok(true));
    assert_eq!(zenn.is_local_image("/images/pic.png".to_string()), Ok(true));
    assert_eq!(zenn.is_local_image("pic.png".to_string()), Ok(true));
    assert_eq!(zenn.is_local_image("https://example.com/pic.png".to_string()), Ok(false));
    assert_eq!(zenn.is_local_image("http://example.com/pic.png".to_string()), Ok(false));
    assert_eq!(zenn.is_local_image("//example.com/pic.png".to_string()), Ok(false));
    assert_eq!(zenn.is_local_image("data:image/png;base64,AAAA".to_string()), Ok(false));
}

#[test]
fn zenn_parses_its_block() {
    let block = "+++\ntitle=\"Hello\"\npublished_at=\"2024-01-01\"\nemoji = \"x\"\n+++\n\n";
    let parsed = Zenn::new().parse_front_matter(block.to_string()).ok().unwrap();
    assert_eq!(parsed.title(), "Hello");
    assert_eq!(parsed.published_at(), "2024-01-01");
    assert_eq!(parsed.custom("emoji"), Some("x".to_string()));
    assert_eq!(parsed.custom("title"), None);
    assert_eq!(parsed.custom("published_at"), None);
}

#[test]
fn title_and_date_survive_the_conversion() {
    let zenn = Zenn::new();
    let hugo = HugoRobust::new();
    let source = "+++\ntitle = \"T\"\npublished_at = \"2024-01-01\"\n+++\n";
    let parsed = zenn.parse_front_matter(source.to_string()).ok().unwrap();
    assert_eq!(parsed.title(), "T");
    assert_eq!(parsed.published_at(), "2024-01-01");
    let written = hugo.format_front_matter(parsed).unwrap();
    let fields = parse_fields(&written);
    assert_eq!(fields.get("title"), Some("T".to_string()));
    assert_eq!(fields.get("date"), Some("2024-01-01".to_string()));
    assert_eq!(fields.get("thumbnail"), Some("".to_string()));
    let read_back = zenn.parse_front_matter(written.clone()).ok().unwrap();
    assert_eq!(read_back.title(), "T");
    assert_eq!(read_back.custom("date"), Some("2024-01-01".to_string()));
    assert_eq!(
        hugo.parse_front_matter(written).err(),
        Some(ExportError::UnimplementedAdapterOperation)
    );
}

#[test]
fn values_with_quotes_and_equals_signs_survive() {
    let written = HugoRobust::new().format_front_matter(model("a = \"b\"", " 2024 ")).unwrap();
    let fields = parse_fields(&written);
    assert_eq!(fields.get("title"), Some("a = \"b\"".to_string()));
    assert_eq!(fields.get("date"), Some(" 2024 ".to_string()));
}
