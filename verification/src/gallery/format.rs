//! The gallery metadata model and its permissive wire-format decoder. The
//! source JSON mixes numeric and string ids and tagged and untagged image
//! types; each decoding rule is stated as a spec function and the executable
//! decoder is proved to follow it exactly.

use vstd::prelude::*;
use crate::json::{JsonValue, spec_obj_get, json_get};
use crate::strutil::{spec_parse_u64, str_chars, parse_u64_chars};

verus! {

/// The format of one stored image.
#[derive(Debug, Clone, Copy, PartialEq, Eq, Structural)]
pub enum ImageType {
    Webp,
    Jpg,
    Png,
}

/// A gallery title in its three wire variants; an absent or null variant
/// decodes to the empty string.
#[derive(Debug)]
pub struct GalleryTitle {
    pub english: String,
    pub japanese: String,
    pub pretty: String,
}

/// The images of a gallery: one entry per page in page order, plus the
/// cover and thumbnail formats.
#[derive(Debug)]
pub struct GalleryImages {
    pub pages: Vec<ImageType>,
    pub cover: ImageType,
    pub thumbnail: ImageType,
}

/// One tag: its numeric id and its name.
#[derive(Debug)]
pub struct GalleryTag {
    pub id: u32,
    pub name: String,
}

/// A gallery's decoded metadata.
#[derive(Debug)]
pub struct Gallery {
    pub id: u32,
    pub media_id: String,
    pub title: GalleryTitle,
    pub images: GalleryImages,
    pub tags: Vec<GalleryTag>,
    pub num_favorites: u32,
    pub upload_date: u64,
}

pub struct GalleryTitleView {
    pub english: Seq<char>,
    pub japanese: Seq<char>,
    pub pretty: Seq<char>,
}

pub struct GalleryImagesView {
    pub pages: Seq<ImageType>,
    pub cover: ImageType,
    pub thumbnail: ImageType,
}

pub struct GalleryTagView {
    pub id: u32,
    pub name: Seq<char>,
}

pub struct GalleryView {
    pub id: u32,
    pub media_id: Seq<char>,
    pub title: GalleryTitleView,
    pub images: GalleryImagesView,
    pub tags: Seq<GalleryTagView>,
    pub num_favorites: u32,
    pub upload_date: u64,
}

impl View for GalleryTitle {
    type V = GalleryTitleView;

    open spec fn view(&self) -> GalleryTitleView {
        GalleryTitleView {
            english: self.english@,
            japanese: self.japanese@,
            pretty: self.pretty@,
        }
    }
}

impl View for GalleryImages {
    type V = GalleryImagesView;

    open spec fn view(&self) -> GalleryImagesView {
        GalleryImagesView { pages: self.pages@, cover: self.cover, thumbnail: self.thumbnail }
    }
}

impl View for GalleryTag {
    type V = GalleryTagView;

    open spec fn view(&self) -> GalleryTagView {
        GalleryTagView { id: self.id, name: self.name@ }
    }
}

/// The views of a run of tags, in order.
pub open spec fn spec_tags_view(tags: Seq<GalleryTag>) -> Seq<GalleryTagView> {
    Seq::new(tags.len(), |i: int| tags[i]@)
}

impl View for Gallery {
    type V = GalleryView;

    open spec fn view(&self) -> GalleryView {
        GalleryView {
            id: self.id,
            media_id: self.media_id@,
            title: self.title@,
            images: self.images@,
            tags: spec_tags_view(self.tags@),
            num_favorites: self.num_favorites,
            upload_date: self.upload_date,
        }
    }
}

/// Why a metadata document failed to decode.
#[derive(Debug, Clone, Copy, PartialEq, Eq, Structural)]
pub enum DecodeError {
    /// The document, or a member that must be one, is not a JSON object.
    ExpectedObject,
    /// A required field is absent.
    MissingField,
    /// The id is neither a number nor a numeric string.
    NotANumber,
    /// A numeric value exceeds the width of its field.
    NumberOverflow,
    /// An image type is neither a tag object nor a string.
    NotTagOrString,
    /// An image type letter is outside `w`, `j`, `p`.
    InvalidImageType,
    /// The page list is not a JSON array.
    ExpectedArray,
    /// A field that must be a string is not one.
    ExpectedString,
    /// A field that must be an unsigned number is not one.
    ExpectedNumber,
}

impl DecodeError {
    /// A short description of the failure.
    pub fn message(&self) -> (r: &'static str)
        ensures
            r@ =~= spec_decode_error_message(*self),
    {
        match self {
            DecodeError::ExpectedObject => "expected a JSON object",
            DecodeError::MissingField => "missing field",
            DecodeError::NotANumber => "not a number nor a number string",
            DecodeError::NumberOverflow => "number overflow",
            DecodeError::NotTagOrString => "value is not a tag struct nor a string",
            DecodeError::InvalidImageType => "invalid image type",
            DecodeError::ExpectedArray => "expected array",
            DecodeError::ExpectedString => "expected a string",
            DecodeError::ExpectedNumber => "expected an unsigned number",
        }
    }
}

/// The description each decode failure carries.
pub open spec fn spec_decode_error_message(e: DecodeError) -> Seq<char> {
    match e {
        DecodeError::ExpectedObject => "expected a JSON object"@,
        DecodeError::MissingField => "missing field"@,
        DecodeError::NotANumber => "not a number nor a number string"@,
        DecodeError::NumberOverflow => "number overflow"@,
        DecodeError::NotTagOrString => "value is not a tag struct nor a string"@,
        DecodeError::InvalidImageType => "invalid image type"@,
        DecodeError::ExpectedArray => "expected array"@,
        DecodeError::ExpectedString => "expected a string"@,
        DecodeError::ExpectedNumber => "expected an unsigned number"@,
    }
}

/// The single letter that encodes an image type, whichever wire shape
/// carries it: a bare string, or the string under `t` in a tag object.
pub open spec fn spec_image_letter(v: JsonValue) -> Option<Seq<char>> {
    match v {
        JsonValue::Object(fields) => match spec_obj_get(fields@, "t"@) {
            Some(JsonValue::Str(s)) => Some(s@),
            _ => None,
        },
        JsonValue::Str(s) => Some(s@),
        _ => None,
    }
}

/// The image type a letter names.
pub open spec fn spec_letter_type(s: Seq<char>) -> Option<ImageType> {
    if s.len() == 1 && s[0] == 'w' {
        Some(ImageType::Webp)
    } else if s.len() == 1 && s[0] == 'j' {
        Some(ImageType::Jpg)
    } else if s.len() == 1 && s[0] == 'p' {
        Some(ImageType::Png)
    } else {
        None
    }
}

/// The single-image decode rule: either a bare string `"w" | "j" | "p"` or
/// an object whose `t` member is one of those strings; any other shape is
/// `NotTagOrString`, any other letter `InvalidImageType`.
pub open spec fn spec_decode_image_type(v: JsonValue) -> Result<ImageType, DecodeError> {
    match spec_image_letter(v) {
        None => Err(DecodeError::NotTagOrString),
        Some(s) => match spec_letter_type(s) {
            Some(t) => Ok(t),
            None => Err(DecodeError::InvalidImageType),
        },
    }
}

impl ImageType {
    /// Decodes one image-type value by the single-image rule.
    pub fn from_json(v: &JsonValue) -> (r: Result<ImageType, DecodeError>)
        ensures
            r == spec_decode_image_type(*v),
    {
        let letter: Option<&String> = match v {
            JsonValue::Object(fields) => match json_get(fields, "t") {
                Some(JsonValue::Str(s)) => Some(s),
                _ => None,
            },
            JsonValue::Str(s) => Some(s),
            _ => None,
        };
        match letter {
            None => Err(DecodeError::NotTagOrString),
            Some(s) => {
                let chars = str_chars(s.as_str());
                if chars.len() == 1 && chars[0] == 'w' {
                    Ok(ImageType::Webp)
                } else if chars.len() == 1 && chars[0] == 'j' {
                    Ok(ImageType::Jpg)
                } else if chars.len() == 1 && chars[0] == 'p' {
                    Ok(ImageType::Png)
                } else {
                    Err(DecodeError::InvalidImageType)
                }
            },
        }
    }

    /// The file extension used for pages stored in this format.
    pub fn extension(self) -> (r: &'static str)
        ensures
            r@ == spec_extension(self),
    {
        match self {
            ImageType::Webp => "webp",
            ImageType::Jpg => "jpg",
            ImageType::Png => "png",
        }
    }
}

/// The file extension of each image format.
pub open spec fn spec_extension(t: ImageType) -> Seq<char> {
    match t {
        ImageType::Webp => "webp"@,
        ImageType::Jpg => "jpg"@,
        ImageType::Png => "png"@,
    }
}

/// The number a gallery id value carries: a JSON unsigned number keeps its
/// value, a string is read as `str::parse::<u64>` reads it.
pub open spec fn spec_num_u64(v: JsonValue) -> Option<u64> {
    match v {
        JsonValue::UInt(n) => Some(n),
        JsonValue::Str(s) => spec_parse_u64(s@),
        _ => None,
    }
}

/// The id decode rule: a number or a numeric string, fitting in 32 bits;
/// otherwise `NotANumber`, or `NumberOverflow` past the width.
pub open spec fn spec_decode_id(v: JsonValue) -> Result<u32, DecodeError> {
    match spec_num_u64(v) {
        None => Err(DecodeError::NotANumber),
        Some(n) => if n <= u32::MAX {
            Ok(n as u32)
        } else {
            Err(DecodeError::NumberOverflow)
        },
    }
}

/// Decodes a gallery id by the id rule.
pub fn decode_id(v: &JsonValue) -> (r: Result<u32, DecodeError>)
    ensures
        r == spec_decode_id(*v),
{
    let n: Option<u64> = match v {
        JsonValue::UInt(n) => Some(*n),
        JsonValue::Str(s) => {
            let chars = str_chars(s.as_str());
            parse_u64_chars(&chars)
        },
        _ => None,
    };
    match n {
        None => Err(DecodeError::NotANumber),
        Some(n) => if n <= 0xFFFF_FFFF {
            Ok(n as u32)
        } else {
            Err(DecodeError::NumberOverflow)
        },
    }
}

/// The structural string rule: exactly a JSON string.
pub open spec fn spec_decode_string(v: JsonValue) -> Result<Seq<char>, DecodeError> {
    match v {
        JsonValue::Str(s) => Ok(s@),
        _ => Err(DecodeError::ExpectedString),
    }
}

/// Decodes a field that must be a string.
pub fn decode_string(v: &JsonValue) -> (r: Result<String, DecodeError>)
    ensures
        match r {
            Ok(s) => spec_decode_string(*v) == Ok::<Seq<char>, DecodeError>(s@),
            Err(e) => spec_decode_string(*v) == Err::<Seq<char>, DecodeError>(e),
        },
{
    match v {
        JsonValue::Str(s) => Ok(s.clone()),
        _ => Err(DecodeError::ExpectedString),
    }
}

/// The structural unsigned-32-bit rule.
pub open spec fn spec_decode_u32(v: JsonValue) -> Result<u32, DecodeError> {
    match v {
        JsonValue::UInt(n) => if n <= u32::MAX {
            Ok(n as u32)
        } else {
            Err(DecodeError::NumberOverflow)
        },
        _ => Err(DecodeError::ExpectedNumber),
    }
}

/// Decodes a field that must be an unsigned number fitting in 32 bits.
pub fn decode_u32(v: &JsonValue) -> (r: Result<u32, DecodeError>)
    ensures
        r == spec_decode_u32(*v),
{
    match v {
        JsonValue::UInt(n) => if *n <= 0xFFFF_FFFF {
            Ok(*n as u32)
        } else {
            Err(DecodeError::NumberOverflow)
        },
        _ => Err(DecodeError::ExpectedNumber),
    }
}

/// The structural unsigned-64-bit rule.
pub open spec fn spec_decode_u64(v: JsonValue) -> Result<u64, DecodeError> {
    match v {
        JsonValue::UInt(n) => Ok(n),
        _ => Err(DecodeError::ExpectedNumber),
    }
}

/// Decodes a field that must be an unsigned number.
pub fn decode_u64(v: &JsonValue) -> (r: Result<u64, DecodeError>)
    ensures
        r == spec_decode_u64(*v),
{
    match v {
        JsonValue::UInt(n) => Ok(*n),
        _ => Err(DecodeError::ExpectedNumber),
    }
}

/// The title-member rule: an absent or null member is the empty string, a
/// string keeps its characters, anything else is `ExpectedString`.
pub open spec fn spec_decode_title_field(f: Option<JsonValue>) -> Result<Seq<char>, DecodeError> {
    match f {
        None => Ok(Seq::empty()),
        Some(JsonValue::Null) => Ok(Seq::empty()),
        Some(JsonValue::Str(s)) => Ok(s@),
        Some(_) => Err(DecodeError::ExpectedString),
    }
}

fn title_field(fields: &Vec<(String, JsonValue)>, key: &str) -> (r: Result<String, DecodeError>)
    ensures
        match r {
            Ok(s) => spec_decode_title_field(spec_obj_get(fields@, key@)) == Ok::<
                Seq<char>,
                DecodeError,
            >(s@),
            Err(e) => spec_decode_title_field(spec_obj_get(fields@, key@)) == Err::<
                Seq<char>,
                DecodeError,
            >(e),
        },
{
    match json_get(fields, key) {
        None => Ok(String::new()),
        Some(JsonValue::Null) => Ok(String::new()),
        Some(JsonValue::Str(s)) => Ok(s.clone()),
        Some(_) => Err(DecodeError::ExpectedString),
    }
}

/// The title rule: an object whose `english`, `japanese` and `pretty`
/// members each follow the title-member rule, read in that order.
pub open spec fn spec_decode_title(v: JsonValue) -> Result<GalleryTitleView, DecodeError> {
    match v {
        JsonValue::Object(fields) => {
            match spec_decode_title_field(spec_obj_get(fields@, "english"@)) {
                Err(e) => Err(e),
                Ok(english) => match spec_decode_title_field(spec_obj_get(fields@, "japanese"@)) {
                    Err(e) => Err(e),
                    Ok(japanese) => match spec_decode_title_field(
                        spec_obj_get(fields@, "pretty"@),
                    ) {
                        Err(e) => Err(e),
                        Ok(pretty) => Ok(GalleryTitleView { english, japanese, pretty }),
                    },
                },
            }
        },
        _ => Err(DecodeError::ExpectedObject),
    }
}

/// Decodes a gallery title by the title rule.
pub fn decode_title(v: &JsonValue) -> (r: Result<GalleryTitle, DecodeError>)
    ensures
        match r {
            Ok(t) => spec_decode_title(*v) == Ok::<GalleryTitleView, DecodeError>(t@),
            Err(e) => spec_decode_title(*v) == Err::<GalleryTitleView, DecodeError>(e),
        },
{
    match v {
        JsonValue::Object(fields) => {
            let english = match title_field(fields, "english") {
                Ok(s) => s,
                Err(e) => {
                    return Err(e);
                },
            };
            let japanese = match title_field(fields, "japanese") {
                Ok(s) => s,
                Err(e) => {
                    return Err(e);
                },
            };
            let pretty = match title_field(fields, "pretty") {
                Ok(s) => s,
                Err(e) => {
                    return Err(e);
                },
            };
            Ok(GalleryTitle { english, japanese, pretty })
        },
        _ => Err(DecodeError::ExpectedObject),
    }
}

/// The page-list rule applied element by element: the first failing element
/// decides the error.
pub open spec fn spec_decode_page_list(items: Seq<JsonValue>) -> Result<Seq<ImageType>,
    DecodeError,
>
    decreases items.len(),
{
    if items.len() == 0 {
        Ok(Seq::empty())
    } else {
        match spec_decode_image_type(items[0]) {
            Err(e) => Err(e),
            Ok(t) => match spec_decode_page_list(items.drop_first()) {
                Err(e) => Err(e),
                Ok(rest) => Ok(seq![t] + rest),
            },
        }
    }
}

/// The pages rule: a JSON array of single-image values; a non-array is
/// `ExpectedArray`.
pub open spec fn spec_decode_pages(v: JsonValue) -> Result<Seq<ImageType>, DecodeError> {
    match v {
        JsonValue::Array(items) => spec_decode_page_list(items@),
        _ => Err(DecodeError::ExpectedArray),
    }
}

proof fn lemma_page_list_glue(items: Seq<JsonValue>, i: int, prefix: Seq<ImageType>)
    requires
        0 <= i <= items.len(),
        spec_decode_page_list(items) == match spec_decode_page_list(items.skip(i)) {
            Ok(rest) => Ok::<Seq<ImageType>, DecodeError>(prefix + rest),
            Err(e) => Err::<Seq<ImageType>, DecodeError>(e),
        },
        i < items.len(),
        spec_decode_image_type(items[i]) is Ok,
    ensures
        spec_decode_page_list(items) == match spec_decode_page_list(items.skip(i + 1)) {
            Ok(rest) => Ok::<Seq<ImageType>, DecodeError>(
                (prefix + seq![spec_decode_image_type(items[i])->Ok_0]) + rest,
            ),
            Err(e) => Err::<Seq<ImageType>, DecodeError>(e),
        },
{
    let tail = items.skip(i);
    assert(tail[0] == items[i]);
    assert(tail.drop_first() =~= items.skip(i + 1));
    let t = spec_decode_image_type(items[i])->Ok_0;
    match spec_decode_page_list(items.skip(i + 1)) {
        Ok(rest) => {
            assert(prefix + (seq![t] + rest) =~= (prefix + seq![t]) + rest);
        },
        Err(_) => {},
    }
}

/// Decodes the page list by the pages rule.
pub fn decode_pages(v: &JsonValue) -> (r: Result<Vec<ImageType>, DecodeError>)
    ensures
        match r {
            Ok(pages) => spec_decode_pages(*v) == Ok::<Seq<ImageType>, DecodeError>(pages@),
            Err(e) => spec_decode_pages(*v) == Err::<Seq<ImageType>, DecodeError>(e),
        },
{
    match v {
        JsonValue::Array(items) => {
            let mut out: Vec<ImageType> = Vec::new();
            let mut i: usize = 0;
            proof {
                assert(spec_decode_pages(*v) == spec_decode_page_list(items@));
                assert(items@.skip(0) =~= items@);
                assert(out@ + spec_decode_page_list(items@)->Ok_0 =~= spec_decode_page_list(
                    items@,
                )->Ok_0);
            }
            while i < items.len()
                invariant
                    i <= items@.len(),
                    spec_decode_pages(*v) == spec_decode_page_list(items@),
                    spec_decode_page_list(items@) == match spec_decode_page_list(
                        items@.skip(i as int),
                    ) {
                        Ok(rest) => Ok::<Seq<ImageType>, DecodeError>(out@ + rest),
                        Err(e) => Err::<Seq<ImageType>, DecodeError>(e),
                    },
                decreases items@.len() - i,
            {
                let ghost tail = items@.skip(i as int);
                proof {
                    assert(tail.len() > 0);
                    assert(tail[0] == items@[i as int]);
                }
                match ImageType::from_json(&items[i]) {
                    Ok(t) => {
                        let ghost old_out = out@;
                        proof {
                            lemma_page_list_glue(items@, i as int, out@);
                        }
                        out.push(t);
                        i = i + 1;
                        proof {
                            assert(out@ =~= old_out + seq![t]);
                        }
                    },
                    Err(e) => {
                        proof {
                            assert(spec_decode_page_list(tail) == Err::<Seq<ImageType>, DecodeError>(
                                e,
                            ));
                            assert(spec_decode_page_list(items@) == Err::<
                                Seq<ImageType>,
                                DecodeError,
                            >(e));
                            assert(spec_decode_pages(*v) == Err::<Seq<ImageType>, DecodeError>(e));
                        }
                        return Err(e);
                    },
                }
            }
            proof {
                assert(items@.skip(items@.len() as int) =~= Seq::<JsonValue>::empty());
                assert(out@ + Seq::<ImageType>::empty() =~= out@);
            }
            Ok(out)
        },
        _ => Err(DecodeError::ExpectedArray),
    }
}

/// A required member of an object: absent is `MissingField`.
pub open spec fn spec_req_field(f: Seq<(String, JsonValue)>, key: Seq<char>) -> Result<
    JsonValue,
    DecodeError,
> {
    match spec_obj_get(f, key) {
        Some(v) => Ok(v),
        None => Err(DecodeError::MissingField),
    }
}

fn req_field<'a>(fields: &'a Vec<(String, JsonValue)>, key: &str) -> (r: Result<
    &'a JsonValue,
    DecodeError,
>)
    ensures
        match r {
            Ok(v) => spec_req_field(fields@, key@) == Ok::<JsonValue, DecodeError>(*v),
            Err(e) => spec_req_field(fields@, key@) == Err::<JsonValue, DecodeError>(e),
        },
{
    match json_get(fields, key) {
        Some(v) => Ok(v),
        None => Err(DecodeError::MissingField),
    }
}

/// The images rule: an object whose `pages` member follows the pages rule
/// and whose `cover` and `thumbnail` members follow the single-image rule,
/// read in that order.
pub open spec fn spec_decode_images(v: JsonValue) -> Result<GalleryImagesView, DecodeError> {
    match v {
        JsonValue::Object(fields) => {
            match spec_req_field(fields@, "pages"@) {
                Err(e) => Err(e),
                Ok(pv) => match spec_decode_pages(pv) {
                    Err(e) => Err(e),
                    Ok(pages) => match spec_req_field(fields@, "cover"@) {
                        Err(e) => Err(e),
                        Ok(cv) => match spec_decode_image_type(cv) {
                            Err(e) => Err(e),
                            Ok(cover) => match spec_req_field(fields@, "thumbnail"@) {
                                Err(e) => Err(e),
                                Ok(tv) => match spec_decode_image_type(tv) {
                                    Err(e) => Err(e),
                                    Ok(thumbnail) => Ok(
                                        GalleryImagesView { pages, cover, thumbnail },
                                    ),
                                },
                            },
                        },
                    },
                },
            }
        },
        _ => Err(DecodeError::ExpectedObject),
    }
}

/// Decodes the images member by the images rule.
pub fn decode_images(v: &JsonValue) -> (r: Result<GalleryImages, DecodeError>)
    ensures
        match r {
            Ok(im) => spec_decode_images(*v) == Ok::<GalleryImagesView, DecodeError>(im@),
            Err(e) => spec_decode_images(*v) == Err::<GalleryImagesView, DecodeError>(e),
        },
{
    match v {
        JsonValue::Object(fields) => {
            let pages = match req_field(fields, "pages") {
                Ok(pv) => match decode_pages(pv) {
                    Ok(pages) => pages,
                    Err(e) => {
                        return Err(e);
                    },
                },
                Err(e) => {
                    return Err(e);
                },
            };
            let cover = match req_field(fields, "cover") {
                Ok(cv) => match ImageType::from_json(cv) {
                    Ok(c) => c,
                    Err(e) => {
                        return Err(e);
                    },
                },
                Err(e) => {
                    return Err(e);
                },
            };
            let thumbnail = match req_field(fields, "thumbnail") {
                Ok(tv) => match ImageType::from_json(tv) {
                    Ok(t) => t,
                    Err(e) => {
                        return Err(e);
                    },
                },
                Err(e) => {
                    return Err(e);
                },
            };
            Ok(GalleryImages { pages, cover, thumbnail })
        },
        _ => Err(DecodeError::ExpectedObject),
    }
}

/// The tag rule: an object whose `id` member follows the unsigned-32-bit
/// rule and whose `name` member is a string, read in that order.
pub open spec fn spec_decode_tag(v: JsonValue) -> Result<GalleryTagView, DecodeError> {
    match v {
        JsonValue::Object(fields) => {
            match spec_req_field(fields@, "id"@) {
                Err(e) => Err(e),
                Ok(idv) => match spec_decode_u32(idv) {
                    Err(e) => Err(e),
                    Ok(id) => match spec_req_field(fields@, "name"@) {
                        Err(e) => Err(e),
                        Ok(nv) => match spec_decode_string(nv) {
                            Err(e) => Err(e),
                            Ok(name) => Ok(GalleryTagView { id, name }),
                        },
                    },
                },
            }
        },
        _ => Err(DecodeError::ExpectedObject),
    }
}

/// Decodes one tag by the tag rule.
pub fn decode_tag(v: &JsonValue) -> (r: Result<GalleryTag, DecodeError>)
    ensures
        match r {
            Ok(t) => spec_decode_tag(*v) == Ok::<GalleryTagView, DecodeError>(t@),
            Err(e) => spec_decode_tag(*v) == Err::<GalleryTagView, DecodeError>(e),
        },
{
    match v {
        JsonValue::Object(fields) => {
            let id = match req_field(fields, "id") {
                Ok(idv) => match decode_u32(idv) {
                    Ok(id) => id,
                    Err(e) => {
                        return Err(e);
                    },
                },
                Err(e) => {
                    return Err(e);
                },
            };
            let name = match req_field(fields, "name") {
                Ok(nv) => match decode_string(nv) {
                    Ok(n) => n,
                    Err(e) => {
                        return Err(e);
                    },
                },
                Err(e) => {
                    return Err(e);
                },
            };
            Ok(GalleryTag { id, name })
        },
        _ => Err(DecodeError::ExpectedObject),
    }
}

/// The tag-list rule applied element by element: the first failing element
/// decides the error.
pub open spec fn spec_decode_tag_list(items: Seq<JsonValue>) -> Result<Seq<GalleryTagView>,
    DecodeError,
>
    decreases items.len(),
{
    if items.len() == 0 {
        Ok(Seq::empty())
    } else {
        match spec_decode_tag(items[0]) {
            Err(e) => Err(e),
            Ok(t) => match spec_decode_tag_list(items.drop_first()) {
                Err(e) => Err(e),
                Ok(rest) => Ok(seq![t] + rest),
            },
        }
    }
}

/// The tags rule: a JSON array of tag values.
pub open spec fn spec_decode_tags(v: JsonValue) -> Result<Seq<GalleryTagView>, DecodeError> {
    match v {
        JsonValue::Array(items) => spec_decode_tag_list(items@),
        _ => Err(DecodeError::ExpectedArray),
    }
}

proof fn lemma_tag_list_glue(items: Seq<JsonValue>, i: int, prefix: Seq<GalleryTagView>)
    requires
        0 <= i < items.len(),
        spec_decode_tag_list(items) == match spec_decode_tag_list(items.skip(i)) {
            Ok(rest) => Ok::<Seq<GalleryTagView>, DecodeError>(prefix + rest),
            Err(e) => Err::<Seq<GalleryTagView>, DecodeError>(e),
        },
        spec_decode_tag(items[i]) is Ok,
    ensures
        spec_decode_tag_list(items) == match spec_decode_tag_list(items.skip(i + 1)) {
            Ok(rest) => Ok::<Seq<GalleryTagView>, DecodeError>(
                (prefix + seq![spec_decode_tag(items[i])->Ok_0]) + rest,
            ),
            Err(e) => Err::<Seq<GalleryTagView>, DecodeError>(e),
        },
{
    let tail = items.skip(i);
    assert(tail[0] == items[i]);
    assert(tail.drop_first() =~= items.skip(i + 1));
    let t = spec_decode_tag(items[i])->Ok_0;
    match spec_decode_tag_list(items.skip(i + 1)) {
        Ok(rest) => {
            assert(prefix + (seq![t] + rest) =~= (prefix + seq![t]) + rest);
        },
        Err(_) => {},
    }
}

/// Decodes the tag list by the tags rule.
pub fn decode_tags(v: &JsonValue) -> (r: Result<Vec<GalleryTag>, DecodeError>)
    ensures
        match r {
            Ok(tags) => spec_decode_tags(*v) == Ok::<Seq<GalleryTagView>, DecodeError>(
                spec_tags_view(tags@),
            ),
            Err(e) => spec_decode_tags(*v) == Err::<Seq<GalleryTagView>, DecodeError>(e),
        },
{
    match v {
        JsonValue::Array(items) => {
            let mut out: Vec<GalleryTag> = Vec::new();
            let mut i: usize = 0;
            proof {
                assert(spec_decode_tags(*v) == spec_decode_tag_list(items@));
                assert(items@.skip(0) =~= items@);
                assert(spec_tags_view(out@) + spec_decode_tag_list(items@)->Ok_0
                    =~= spec_decode_tag_list(items@)->Ok_0);
            }
            while i < items.len()
                invariant
                    i <= items@.len(),
                    spec_decode_tags(*v) == spec_decode_tag_list(items@),
                    spec_decode_tag_list(items@) == match spec_decode_tag_list(
                        items@.skip(i as int),
                    ) {
                        Ok(rest) => Ok::<Seq<GalleryTagView>, DecodeError>(
                            spec_tags_view(out@) + rest,
                        ),
                        Err(e) => Err::<Seq<GalleryTagView>, DecodeError>(e),
                    },
                decreases items@.len() - i,
            {
                let ghost tail = items@.skip(i as int);
                proof {
                    assert(tail.len() > 0);
                    assert(tail[0] == items@[i as int]);
                }
                match decode_tag(&items[i]) {
                    Ok(t) => {
                        proof {
                            lemma_tag_list_glue(items@, i as int, spec_tags_view(out@));
                        }
                        let ghost old_out = out@;
                        out.push(t);
                        i = i + 1;
                        proof {
                            assert(spec_tags_view(out@) =~= spec_tags_view(old_out) + seq![t@]);
                        }
                    },
                    Err(e) => {
                        proof {
                            assert(spec_decode_tag_list(tail) == Err::<
                                Seq<GalleryTagView>,
                                DecodeError,
                            >(e));
                        }
                        return Err(e);
                    },
                }
            }
            proof {
                assert(items@.skip(items@.len() as int) =~= Seq::<JsonValue>::empty());
                assert(spec_tags_view(out@) + Seq::<GalleryTagView>::empty() =~= spec_tags_view(
                    out@,
                ));
            }
            Ok(out)
        },
        _ => Err(DecodeError::ExpectedArray),
    }
}

/// The whole-document rule: a JSON object whose members `id`, `media_id`,
/// `title`, `images`, `tags`, `num_favorites` and `upload_date` follow
/// their rules, read in that order; the first failure decides the error.
pub open spec fn spec_decode_gallery(v: JsonValue) -> Result<GalleryView, DecodeError> {
    match v {
        JsonValue::Object(fields) => spec_decode_gallery_fields(fields@),
        _ => Err(DecodeError::ExpectedObject),
    }
}

/// The member-by-member part of the whole-document rule.
pub open spec fn spec_decode_gallery_fields(f: Seq<(String, JsonValue)>) -> Result<
    GalleryView,
    DecodeError,
> {
    match spec_req_field(f, "id"@) {
        Err(e) => Err(e),
        Ok(idv) => match spec_decode_id(idv) {
            Err(e) => Err(e),
            Ok(id) => match spec_req_field(f, "media_id"@) {
                Err(e) => Err(e),
                Ok(mv) => match spec_decode_string(mv) {
                    Err(e) => Err(e),
                    Ok(media_id) => match spec_req_field(f, "title"@) {
                        Err(e) => Err(e),
                        Ok(tv) => match spec_decode_title(tv) {
                            Err(e) => Err(e),
                            Ok(title) => match spec_req_field(f, "images"@) {
                                Err(e) => Err(e),
                                Ok(iv) => match spec_decode_images(iv) {
                                    Err(e) => Err(e),
                                    Ok(images) => match spec_req_field(f, "tags"@) {
                                        Err(e) => Err(e),
                                        Ok(tgv) => match spec_decode_tags(tgv) {
                                            Err(e) => Err(e),
                                            Ok(tags) => match spec_req_field(f, "num_favorites"@) {
                                                Err(e) => Err(e),
                                                Ok(fv) => match spec_decode_u32(fv) {
                                                    Err(e) => Err(e),
                                                    Ok(num_favorites) => match spec_req_field(
                                                        f,
                                                        "upload_date"@,
                                                    ) {
                                                        Err(e) => Err(e),
                                                        Ok(uv) => match spec_decode_u64(uv) {
                                                            Err(e) => Err(e),
                                                            Ok(upload_date) => Ok(
                                                                GalleryView {
                                                                    id,
                                                                    media_id,
                                                                    title,
                                                                    images,
                                                                    tags,
                                                                    num_favorites,
                                                                    upload_date,
                                                                },
                                                            ),
                                                        },
                                                    },
                                                },
                                            },
                                        },
                                    },
                                },
                            },
                        },
                    },
                },
            },
        },
    }
}

impl Gallery {
    /// Decodes a whole metadata document by the whole-document rule.
    #[verifier::rlimit(100)]
    pub fn from_json(v: &JsonValue) -> (r: Result<Gallery, DecodeError>)
        ensures
            match r {
                Ok(g) => spec_decode_gallery(*v) == Ok::<GalleryView, DecodeError>(g@),
                Err(e) => spec_decode_gallery(*v) == Err::<GalleryView, DecodeError>(e),
            },
    {
        match v {
            JsonValue::Object(fields) => {
                let id = match req_field(fields, "id") {
                    Ok(idv) => match decode_id(idv) {
                        Ok(id) => id,
                        Err(e) => {
                            return Err(e);
                        },
                    },
                    Err(e) => {
                        return Err(e);
                    },
                };
                let media_id = match req_field(fields, "media_id") {
                    Ok(mv) => match decode_string(mv) {
                        Ok(m) => m,
                        Err(e) => {
                            return Err(e);
                        },
                    },
                    Err(e) => {
                        return Err(e);
                    },
                };
                let title = match req_field(fields, "title") {
                    Ok(tv) => match decode_title(tv) {
                        Ok(t) => t,
                        Err(e) => {
                            return Err(e);
                        },
                    },
                    Err(e) => {
                        return Err(e);
                    },
                };
                let images = match req_field(fields, "images") {
                    Ok(iv) => match decode_images(iv) {
                        Ok(im) => im,
                        Err(e) => {
                            return Err(e);
                        },
                    },
                    Err(e) => {
                        return Err(e);
                    },
                };
                let tags = match req_field(fields, "tags") {
                    Ok(tgv) => match decode_tags(tgv) {
                        Ok(t) => t,
                        Err(e) => {
                            return Err(e);
                        },
                    },
                    Err(e) => {
                        return Err(e);
                    },
                };
                let num_favorites = match req_field(fields, "num_favorites") {
                    Ok(fv) => match decode_u32(fv) {
                        Ok(n) => n,
                        Err(e) => {
                            return Err(e);
                        },
                    },
                    Err(e) => {
                        return Err(e);
                    },
                };
                let upload_date = match req_field(fields, "upload_date") {
                    Ok(uv) => match decode_u64(uv) {
                        Ok(u) => u,
                        Err(e) => {
                            return Err(e);
                        },
                    },
                    Err(e) => {
                        return Err(e);
                    },
                };
                Ok(Gallery { id, media_id, title, images, tags, num_favorites, upload_date })
            },
            _ => Err(DecodeError::ExpectedObject),
        }
    }

    /// The page count: one page per entry of the page-type list.
    pub fn pages(&self) -> (n: usize)
        ensures
            n == self@.images.pages.len(),
    {
        self.images.pages.len()
    }
}

} // verus!
