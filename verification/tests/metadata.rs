use nhentai_downloader::json::JsonValue;
use nhentai_downloader::gallery::format::{
    Gallery, ImageType, DecodeError, decode_id, decode_title, decode_images, decode_tags,
};
use nhentai_downloader::gallery::{GalleryError, gallery_url, page_filename};

fn s(x: &str) -> String {
    String::from(x)
}

fn js(x: &str) -> JsonValue {
    JsonValue::Str(s(x))
}

fn tag_obj(letter: &str) -> JsonValue {
    JsonValue::Object(vec![(s("t"), js(letter))])
}

#[test]
fn image_type_bare_strings() {
    assert_eq!(ImageType::from_json(&js("w")), Ok(ImageType::Webp));
    assert_eq!(ImageType::from_json(&js("j")), Ok(ImageType::Jpg));
    assert_eq!(ImageType::from_json(&js("p")), Ok(ImageType::Png));
}

#[test]
fn image_type_tagged_objects() {
    assert_eq!(ImageType::from_json(&tag_obj("w")), Ok(ImageType::Webp));
    assert_eq!(ImageType::from_json(&tag_obj("j")), Ok(ImageType::Jpg));
    assert_eq!(ImageType::from_json(&tag_obj("p")), Ok(ImageType::Png));
}

#[test]
fn image_type_errors() {
    assert_eq!(ImageType::from_json(&js("x")), Err(DecodeError::InvalidImageType));
    assert_eq!(ImageType::from_json(&tag_obj("x")), Err(DecodeError::InvalidImageType));
    assert_eq!(ImageType::from_json(&JsonValue::Object(vec![])), Err(DecodeError::NotTagOrString));
    assert_eq!(
        ImageType::from_json(&JsonValue::Object(vec![(s("t"), JsonValue::UInt(1))])),
        Err(DecodeError::NotTagOrString)
    );
    assert_eq!(ImageType::from_json(&JsonValue::UInt(0)), Err(DecodeError::NotTagOrString));
}

#[test]
fn id_accepts_number_and_numeric_string() {
    assert_eq!(decode_id(&JsonValue::UInt(177013)), Ok(177013));
    assert_eq!(decode_id(&js("177013")), Ok(177013));
}

#[test]
fn id_rejects_non_numbers() {
    assert_eq!(decode_id(&js("abc")), Err(DecodeError::NotANumber));
    assert_eq!(decode_id(&JsonValue::Bool(true)), Err(DecodeError::NotANumber));
    assert_eq!(decode_id(&JsonValue::Null), Err(DecodeError::NotANumber));
}

#[test]
fn id_overflow_is_its_own_error() {
    assert_eq!(decode_id(&JsonValue::UInt(5_000_000_000)), Err(DecodeError::NumberOverflow));
    assert_eq!(decode_id(&js("5000000000")), Err(DecodeError::NumberOverflow));
}

#[test]
fn id_accepts_leading_plus_as_parse_does() {
    assert_eq!(decode_id(&js("+177013")), Ok(177013));
}

#[test]
fn title_nulls_decode_to_empty_strings() {
    let v = JsonValue::Object(vec![
        (s("english"), JsonValue::Null),
        (s("japanese"), js("日本語")),
        (s("pretty"), JsonValue::Null),
    ]);
    let t = decode_title(&v).unwrap();
    assert_eq!(t.english, "");
    assert_eq!(t.japanese, "日本語");
    assert_eq!(t.pretty, "");
}

#[test]
fn title_absent_members_decode_to_empty_strings() {
    let v = JsonValue::Object(vec![(s("japanese"), js("x"))]);
    let t = decode_title(&v).unwrap();
    assert_eq!(t.english, "");
    assert_eq!(t.japanese, "x");
    assert_eq!(t.pretty, "");
}

#[test]
fn title_non_string_member_is_an_error() {
    let v = JsonValue::Object(vec![(s("english"), JsonValue::UInt(3))]);
    assert_eq!(decode_title(&v).unwrap_err(), DecodeError::ExpectedString);
}

#[test]
fn images_pages_must_be_an_array() {
    let v = JsonValue::Object(vec![
        (s("pages"), js("w")),
        (s("cover"), js("j")),
        (s("thumbnail"), js("p")),
    ]);
    assert_eq!(decode_images(&v).unwrap_err(), DecodeError::ExpectedArray);
}

#[test]
fn images_mixed_page_shapes_decode() {
    let v = JsonValue::Object(vec![
        (s("pages"), JsonValue::Array(vec![js("w"), tag_obj("j"), js("p")])),
        (s("cover"), tag_obj("j")),
        (s("thumbnail"), js("p")),
    ]);
    let im = decode_images(&v).unwrap();
    assert_eq!(im.pages, vec![ImageType::Webp, ImageType::Jpg, ImageType::Png]);
    assert_eq!(im.cover, ImageType::Jpg);
    assert_eq!(im.thumbnail, ImageType::Png);
}

#[test]
fn bad_page_entry_fails_the_list() {
    let v = JsonValue::Array(vec![js("w"), js("q")]);
    let wrapped = JsonValue::Object(vec![
        (s("pages"), v),
        (s("cover"), js("j")),
        (s("thumbnail"), js("p")),
    ]);
    assert_eq!(decode_images(&wrapped).unwrap_err(), DecodeError::InvalidImageType);
}

#[test]
fn tags_decode_in_order() {
    let v = JsonValue::Array(vec![
        JsonValue::Object(vec![(s("id"), JsonValue::UInt(7)), (s("name"), js("alpha"))]),
        JsonValue::Object(vec![(s("id"), JsonValue::UInt(9)), (s("name"), js("beta"))]),
    ]);
    let tags = decode_tags(&v).unwrap();
    assert_eq!(tags.len(), 2);
    assert_eq!(tags[0].id, 7);
    assert_eq!(tags[0].name, "alpha");
    assert_eq!(tags[1].id, 9);
    assert_eq!(tags[1].name, "beta");
}

#[test]
fn tag_without_name_is_missing_field() {
    let v = JsonValue::Array(vec![JsonValue::Object(vec![(s("id"), JsonValue::UInt(7))])]);
    assert_eq!(decode_tags(&v).unwrap_err(), DecodeError::MissingField);
}

const GALLERY_PAGE: &str = "<html><body><div>noise</div><script>var x = 1;</script><script>
window._gallery = JSON.parse(\"{\\u0022id\\u0022:177013,\\u0022media_id\\u0022:\\u0022987654\\u0022,\\u0022title\\u0022:{\\u0022english\\u0022:\\u0022Metamorphosis\\u0022,\\u0022japanese\\u0022:null,\\u0022pretty\\u0022:null},\\u0022images\\u0022:{\\u0022pages\\u0022:[\\u0022w\\u0022,{\\u0022t\\u0022:\\u0022j\\u0022},\\u0022p\\u0022],\\u0022cover\\u0022:{\\u0022t\\u0022:\\u0022j\\u0022},\\u0022thumbnail\\u0022:\\u0022p\\u0022},\\u0022tags\\u0022:[{\\u0022id\\u0022:1,\\u0022name\\u0022:\\u0022one\\u0022}],\\u0022num_favorites\\u0022:5,\\u0022upload_date\\u0022:1600000000}\");
</script></body></html>";

#[test]
fn gallery_resolves_from_an_embedded_payload() {
    let g = Gallery::from_page(GALLERY_PAGE).unwrap();
    assert_eq!(g.id, 177013);
    assert_eq!(g.media_id, "987654");
    assert_eq!(g.title.english, "Metamorphosis");
    assert_eq!(g.title.japanese, "");
    assert_eq!(g.title.pretty, "");
    assert_eq!(g.images.pages, vec![ImageType::Webp, ImageType::Jpg, ImageType::Png]);
    assert_eq!(g.images.cover, ImageType::Jpg);
    assert_eq!(g.images.thumbnail, ImageType::Png);
    assert_eq!(g.tags.len(), 1);
    assert_eq!(g.tags[0].id, 1);
    assert_eq!(g.tags[0].name, "one");
    assert_eq!(g.num_favorites, 5);
    assert_eq!(g.upload_date, 1600000000);
    assert_eq!(g.pages(), 3);
}

#[test]
fn page_without_payload_script_is_not_found() {
    let html = "<html><body><script>var x = 2;</script></body></html>";
    assert_eq!(Gallery::from_page(html).unwrap_err(), GalleryError::JsonNotFound);
}

#[test]
fn malformed_payload_is_invalid_json() {
    let html = "<html><body><script>window._gallery = JSON.parse(\"not json\");</script></body></html>";
    assert_eq!(Gallery::from_page(html).unwrap_err(), GalleryError::JsonInvalid);
}

#[test]
fn payload_missing_fields_is_a_decode_error() {
    let html = "<html><body><script>window._gallery = JSON.parse(\"{}\");</script></body></html>";
    assert_eq!(
        Gallery::from_page(html).unwrap_err(),
        GalleryError::Decode(DecodeError::MissingField)
    );
}

#[test]
fn decode_errors_carry_their_messages() {
    assert_eq!(DecodeError::NotANumber.message(), "not a number nor a number string");
    assert_eq!(DecodeError::InvalidImageType.message(), "invalid image type");
}

#[test]
fn urls_and_filenames() {
    assert_eq!(gallery_url(177013), "https://nhentai.net/g/177013");
    assert_eq!(page_filename(7, ImageType::Png), "7.png");
    assert_eq!(ImageType::Webp.extension(), "webp");
    assert_eq!(ImageType::Jpg.extension(), "jpg");
    assert_eq!(ImageType::Png.extension(), "png");
}

#[test]
fn page_url_names_server_media_index_and_extension() {
    let g = Gallery::from_page(GALLERY_PAGE).unwrap();
    assert_eq!(g.page_url(2, 3), "https://i3.nhentai.net/galleries/987654/2.jpg");
    assert_eq!(g.page_url(1, 1), "https://i1.nhentai.net/galleries/987654/1.webp");
}
