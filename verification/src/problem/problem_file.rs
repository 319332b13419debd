//! Validation of a room's problem file: the room, its problems and the image
//! assets they show.
//!
//! The files that assets name are read by the caller, which hands each asset's
//! file over as an [`AssetFile`].
use vstd::prelude::*;

use super::judge::{normalize_ops, strings_value};
use super::model::{
    Asset, Hint, InputSchema, JudgeConfig, JudgeConfigInput, Problem, ProblemInput, Room,
    RoomFileInput, SubmissionType, ops_value,
};
use super::validation::{
    answer_norm, candidate_key, candidate_norm, operation_config_issue, require_non_empty,
    string_config_issue, validate_operation_judge_config, validate_string_judge_config,
};
use super::{DataFault, Issue, ProblemDataError, validation_error};
use crate::ids::{parse_uuid_text, uuid_parse_of, uuid_text, uuid_text_of};
use crate::text::{
    all_white_space, chars_are, chars_from, concat_str, contains_char, contains_sub, field_index,
    find_last, indexed_field, is_blank, last_index_of, seq_contains_sub, seq_starts_with,
    starts_with, str_eq, string_eq, to_chars,
};

verus! {

/// The largest asset file accepted: 5 MiB.
pub const MAX_ASSET_SIZE: u64 = 5242880;

/// An image format, as recognised by its file signature.
#[derive(Clone, Copy, Debug, PartialEq, Eq, Structural)]
pub enum ImageFormat {
    Png,
    Jpeg,
    Webp,
}

/// What the file system holds at the path an asset names.
#[derive(Debug)]
pub enum AssetFile {
    /// Nothing exists there.
    Missing,
    /// Something exists there but its metadata could not be read.
    MetadataFailed { path: String, message: String },
    /// Something that is not a regular file exists there.
    NotRegularFile,
    /// A regular file of `size` bytes. Its `contents` are inspected only when
    /// `size` is within [`MAX_ASSET_SIZE`].
    Regular { size: u64, contents: Vec<u8> },
    /// A regular file of `size` bytes that could not be read.
    Unreadable { size: u64, path: String, message: String },
}

/// The eight bytes a PNG file starts with.
pub open spec fn png_signature() -> Seq<u8> {
    seq![0x89u8, 0x50u8, 0x4eu8, 0x47u8, 0x0du8, 0x0au8, 0x1au8, 0x0au8]
}

/// Whether `data` starts with `prefix`.
pub open spec fn bytes_start_with(data: Seq<u8>, prefix: Seq<u8>) -> bool {
    prefix.len() <= data.len() && data.subrange(0, prefix.len() as int) == prefix
}

/// The image format that the signature at the start of `data` names.
pub open spec fn image_format_of(data: Seq<u8>) -> Option<ImageFormat> {
    if bytes_start_with(data, png_signature()) {
        Some(ImageFormat::Png)
    } else if bytes_start_with(data, seq![0xffu8, 0xd8u8, 0xffu8]) {
        Some(ImageFormat::Jpeg)
    } else if data.len() >= 12 && data.subrange(0, 4) == seq![0x52u8, 0x49u8, 0x46u8, 0x46u8]
        && data.subrange(8, 12) == seq![0x57u8, 0x45u8, 0x42u8, 0x50u8] {
        Some(ImageFormat::Webp)
    } else {
        None
    }
}

/// Whether `data` holds `expected` from index `start` on.
fn bytes_at(data: &[u8], start: usize, expected: &[u8]) -> (r: bool)
    requires
        start + expected@.len() <= data@.len(),
    ensures
        r == (data@.subrange(start as int, start + expected@.len()) == expected@),
{
    let n = expected.len();
    let dl = data.len();
    for i in 0..n
        invariant
            n == expected@.len(),
            dl == data@.len(),
            start + n <= data@.len(),
            forall|j: int| 0 <= j < i ==> data@[start + j] == expected@[j],
    {
        if data[start + i] != expected[i] {
            assert(data@.subrange(start as int, start + n)[i as int] != expected@[i as int]);
            return false;
        }
    }
    assert(data@.subrange(start as int, start + n) =~= expected@);
    true
}

/// Recognises PNG, JPEG and WebP data by its signature.
pub fn detect_image_format(data: &[u8]) -> (r: Option<ImageFormat>)
    ensures
        r == image_format_of(data@),
{
    let png: [u8; 8] = [0x89u8, 0x50u8, 0x4eu8, 0x47u8, 0x0du8, 0x0au8, 0x1au8, 0x0au8];
    let jpeg: [u8; 3] = [0xffu8, 0xd8u8, 0xffu8];
    let riff: [u8; 4] = [0x52u8, 0x49u8, 0x46u8, 0x46u8];
    let webp: [u8; 4] = [0x57u8, 0x45u8, 0x42u8, 0x50u8];
    assert(png@ =~= png_signature());
    assert(jpeg@ =~= seq![0xffu8, 0xd8u8, 0xffu8]);
    assert(riff@ =~= seq![0x52u8, 0x49u8, 0x46u8, 0x46u8]);
    assert(webp@ =~= seq![0x57u8, 0x45u8, 0x42u8, 0x50u8]);
    if data.len() >= 8 && bytes_at(data, 0, png.as_slice()) {
        Some(ImageFormat::Png)
    } else if data.len() >= 3 && bytes_at(data, 0, jpeg.as_slice()) {
        Some(ImageFormat::Jpeg)
    } else if data.len() >= 12 && bytes_at(data, 0, riff.as_slice()) && bytes_at(
        data,
        8,
        webp.as_slice(),
    ) {
        Some(ImageFormat::Webp)
    } else {
        None
    }
}

/// A character that may start an asset file name: an ASCII lower-case letter
/// or digit.
pub open spec fn is_name_start(c: char) -> bool {
    (0x61 <= c as u32 && c as u32 <= 0x7a) || (0x30 <= c as u32 && c as u32 <= 0x39)
}

/// A character that may follow in an asset file name.
pub open spec fn is_name_char(c: char) -> bool {
    is_name_start(c) || c == '.' || c == '_' || c == '-'
}

/// The format rules of an asset file name.
pub open spec fn valid_file_name(name: Seq<char>) -> bool {
    &&& name.len() > 0
    &&& is_name_start(name[0])
    &&& forall|i: int| 1 <= i < name.len() ==> #[trigger] is_name_char(name[i])
    &&& !seq_contains_sub(name, seq!['.', '.'])
    &&& !name.contains('/')
    &&& !name.contains('\\')
}

/// The extension of a file name: what follows its last dot, if it has one.
pub open spec fn extension_of(name: Seq<char>) -> Option<Seq<char>> {
    let k = last_index_of(name, '.');
    if k < 0 {
        None
    } else {
        Some(name.subrange(k + 1, name.len() as int))
    }
}

/// The image format an extension promises.
pub open spec fn format_for_extension(ext: Option<Seq<char>>) -> Option<ImageFormat> {
    match ext {
        Some(e) => if e == "png"@ {
            Some(ImageFormat::Png)
        } else if e == "jpg"@ || e == "jpeg"@ {
            Some(ImageFormat::Jpeg)
        } else if e == "webp"@ {
            Some(ImageFormat::Webp)
        } else {
            None
        },
        None => None,
    }
}

/// The path that every asset URL of a room starts with.
pub open spec fn asset_prefix(room_id: u128) -> Seq<char> {
    "/assets/problems/"@ + uuid_text_of(room_id) + "/"@
}

/// The file name an asset URL of the room names: what follows the room's
/// prefix.
pub open spec fn asset_name_of(url: Seq<char>, room_id: u128) -> Seq<char> {
    url.subrange(asset_prefix(room_id).len() as int, url.len() as int)
}

/// What the file of an asset reports once its name has been accepted.
pub open spec fn file_fault(file: AssetFile, expected: ImageFormat, f: Seq<char>) -> Option<
    DataFault,
> {
    match file {
        AssetFile::Missing => Some(DataFault::Invalid((f, "asset file must exist"@))),
        AssetFile::MetadataFailed { path, message } => Some(DataFault::Io(path@, message@)),
        AssetFile::NotRegularFile => Some(
            DataFault::Invalid((f, "asset path must point to a regular file"@)),
        ),
        AssetFile::Regular { size, contents } => if size > MAX_ASSET_SIZE {
            Some(DataFault::Invalid((f, "asset file must not exceed 5 MiB"@)))
        } else {
            match image_format_of(contents@) {
                None => Some(DataFault::Invalid((f, "asset file must be PNG, JPEG, or WebP"@))),
                Some(actual) => if actual != expected {
                    Some(DataFault::Invalid((f, "asset extension must match its file content"@)))
                } else {
                    None
                },
            }
        },
        AssetFile::Unreadable { size, path, message } => if size > MAX_ASSET_SIZE {
            Some(DataFault::Invalid((f, "asset file must not exceed 5 MiB"@)))
        } else {
            Some(DataFault::Io(path@, message@))
        },
    }
}

/// What the asset URL `url` of room `room_id`, whose file is `file`, reports
/// against the asset field `field`, if anything.
pub open spec fn asset_fault(url: Seq<char>, room_id: u128, file: AssetFile, field: Seq<char>) -> Option<
    DataFault,
> {
    let f = field + ".url"@;
    if !seq_starts_with(url, asset_prefix(room_id)) {
        Some(DataFault::Invalid((f, "asset URL must contain its parent room ID"@)))
    } else if !valid_file_name(asset_name_of(url, room_id)) {
        Some(DataFault::Invalid((f, "asset file name has an invalid format"@)))
    } else {
        match format_for_extension(extension_of(asset_name_of(url, room_id))) {
            None => Some(
                DataFault::Invalid((f, "asset extension must be png, jpg, jpeg, or webp"@)),
            ),
            Some(expected) => file_fault(file, expected, f),
        }
    }
}

/// The last dot of a name that ends in a dot and a dot-free extension is the
/// dot before that extension.
proof fn lemma_last_dot(stem: Seq<char>, ext: Seq<char>)
    requires
        !ext.contains('.'),
    ensures
        last_index_of(stem + seq!['.'] + ext, '.') == stem.len(),
    decreases ext.len(),
{
    let s = stem + seq!['.'] + ext;
    if ext.len() == 0 {
        assert(s.last() == '.');
    } else {
        let e = ext.drop_last();
        assert(!e.contains('.')) by {
            if e.contains('.') {
                let k = choose|k: int| 0 <= k < e.len() && e[k] == '.';
                assert(ext[k] == '.');
            }
        }
        lemma_last_dot(stem, e);
        assert(s.drop_last() =~= stem + seq!['.'] + e);
        assert(s.last() == ext[ext.len() - 1]);
    }
}

/// An asset is accepted when its URL is its room's prefix followed by a
/// well-formed file name whose extension names an image format (`png`;
/// `jpg` or `jpeg`; `webp`) and its regular file, within the size limit,
/// starts with that format's signature.
pub proof fn lemma_matching_asset_accepted(
    room_id: u128,
    stem: Seq<char>,
    ext: Seq<char>,
    size: u64,
    contents: Vec<u8>,
    field: Seq<char>,
)
    requires
        valid_file_name(stem + seq!['.'] + ext),
        size <= MAX_ASSET_SIZE,
        ext == "png"@ || ext == "jpg"@ || ext == "jpeg"@ || ext == "webp"@,
        ext == "png"@ ==> bytes_start_with(contents@, png_signature()),
        ext == "jpg"@ || ext == "jpeg"@ ==> bytes_start_with(contents@, seq![0xffu8, 0xd8u8, 0xffu8]),
        ext == "webp"@ ==> contents@.len() >= 12 && contents@.subrange(0, 4) == seq![
            0x52u8,
            0x49u8,
            0x46u8,
            0x46u8,
        ] && contents@.subrange(8, 12) == seq![0x57u8, 0x45u8, 0x42u8, 0x50u8],
    ensures
        asset_fault(
            asset_prefix(room_id) + stem + seq!['.'] + ext,
            room_id,
            AssetFile::Regular { size, contents },
            field,
        ) is None,
{
    reveal_strlit("png");
    reveal_strlit("jpg");
    reveal_strlit("jpeg");
    reveal_strlit("webp");
    let name = stem + seq!['.'] + ext;
    let p = asset_prefix(room_id);
    let url = p + stem + seq!['.'] + ext;
    assert(url =~= p + name);
    assert(url.subrange(0, p.len() as int) =~= p);
    assert(asset_name_of(url, room_id) =~= name);
    assert(!ext.contains('.')) by {
        if ext.contains('.') {
            let k = choose|k: int| 0 <= k < ext.len() && ext[k] == '.';
        }
    }
    lemma_last_dot(stem, ext);
    assert(name.subrange(stem.len() + 1int, name.len() as int) =~= ext);
    assert(extension_of(name) == Some(ext));
    let c = contents@;
    if ext == "jpg"@ || ext == "jpeg"@ {
        assert(c[0] == 0xffu8) by {
            assert(c.subrange(0, 3)[0] == c[0]);
        }
        assert(!bytes_start_with(c, png_signature())) by {
            if bytes_start_with(c, png_signature()) {
                assert(c.subrange(0, 8)[0] == c[0]);
            }
        }
    }
    if ext == "webp"@ {
        assert(c[0] == 0x52u8) by {
            assert(c.subrange(0, 4)[0] == c[0]);
        }
        assert(!bytes_start_with(c, png_signature())) by {
            if bytes_start_with(c, png_signature()) {
                assert(c.subrange(0, 8)[0] == c[0]);
            }
        }
        assert(!bytes_start_with(c, seq![0xffu8, 0xd8u8, 0xffu8])) by {
            if bytes_start_with(c, seq![0xffu8, 0xd8u8, 0xffu8]) {
                assert(c.subrange(0, 3)[0] == c[0]);
            }
        }
    }
}

/// Whether `name` keeps the format rules of an asset file name.
fn check_file_name(name: &Vec<char>) -> (r: bool)
    ensures
        r == valid_file_name(name@),
{
    if name.len() == 0 {
        return false;
    }
    let c0 = name[0];
    if !((0x61 <= c0 as u32 && c0 as u32 <= 0x7a) || (0x30 <= c0 as u32 && c0 as u32 <= 0x39)) {
        return false;
    }
    let n = name.len();
    for i in 1..n
        invariant
            n == name@.len(),
            forall|j: int| 1 <= j < i ==> #[trigger] is_name_char(name@[j]),
    {
        let c = name[i];
        if !((0x61 <= c as u32 && c as u32 <= 0x7a) || (0x30 <= c as u32 && c as u32 <= 0x39)
            || c == '.' || c == '_' || c == '-') {
            assert(!is_name_char(name@[i as int]));
            return false;
        }
    }
    let mut dots: Vec<char> = Vec::new();
    dots.push('.');
    dots.push('.');
    assert(dots@ =~= seq!['.', '.']);
    !contains_sub(name, &dots) && !contains_char(name, '/') && !contains_char(name, '\\')
}

/// The image format that the extension of `name` promises.
fn expected_format(name: &Vec<char>) -> (r: Option<ImageFormat>)
    ensures
        r == format_for_extension(extension_of(name@)),
{
    let len = name.len();
    match find_last(name, '.') {
        None => None,
        Some(k) => {
            assert(k < len);
            let ext = chars_from(name, k + 1);
            if chars_are(&ext, "png") {
                Some(ImageFormat::Png)
            } else if chars_are(&ext, "jpg") || chars_are(&ext, "jpeg") {
                Some(ImageFormat::Jpeg)
            } else if chars_are(&ext, "webp") {
                Some(ImageFormat::Webp)
            } else {
                None
            }
        },
    }
}

/// The path that every asset URL of the room starts with.
fn asset_url_prefix(room_id: u128) -> (r: Vec<char>)
    ensures
        r@ == asset_prefix(room_id),
{
    let id = uuid_text(room_id);
    let head = concat_str("/assets/problems/", id.as_str());
    let full = concat_str(head.as_str(), "/");
    to_chars(full.as_str())
}

/// The file name that an asset URL of the room names, when the URL lies
/// under the room's prefix and the name keeps the format rules.
pub fn asset_file_name(url: &str, room_id: u128) -> (r: Option<Vec<char>>)
    ensures
        match r {
            Some(name) => seq_starts_with(url@, asset_prefix(room_id)) && name@ == asset_name_of(
                url@,
                room_id,
            ) && valid_file_name(name@),
            None => !seq_starts_with(url@, asset_prefix(room_id)) || !valid_file_name(
                asset_name_of(url@, room_id),
            ),
        },
{
    let chars = to_chars(url);
    let prefix = asset_url_prefix(room_id);
    if !starts_with(&chars, &prefix) {
        return None;
    }
    let name = chars_from(&chars, prefix.len());
    if !check_file_name(&name) {
        return None;
    }
    Some(name)
}

/// Checks the file an accepted asset name points to.
fn check_asset_file(file: &AssetFile, expected: ImageFormat, f: String) -> (r: Result<
    (),
    ProblemDataError,
>)
    ensures
        match file_fault(*file, expected, f@) {
            Some(fault) => r matches Err(e) && e.fault() == Some(fault),
            None => r is Ok,
        },
{
    match file {
        AssetFile::Missing => Err(validation_error(f, "asset file must exist")),
        AssetFile::MetadataFailed { path, message } => Err(
            ProblemDataError::Io { path: path.clone(), message: message.clone() },
        ),
        AssetFile::NotRegularFile => Err(
            validation_error(f, "asset path must point to a regular file"),
        ),
        AssetFile::Regular { size, contents } => {
            if *size > MAX_ASSET_SIZE {
                return Err(validation_error(f, "asset file must not exceed 5 MiB"));
            }
            match detect_image_format(contents.as_slice()) {
                None => Err(validation_error(f, "asset file must be PNG, JPEG, or WebP")),
                Some(actual) => {
                    if actual != expected {
                        Err(validation_error(f, "asset extension must match its file content"))
                    } else {
                        Ok(())
                    }
                },
            }
        },
        AssetFile::Unreadable { size, path, message } => {
            if *size > MAX_ASSET_SIZE {
                return Err(validation_error(f, "asset file must not exceed 5 MiB"));
            }
            Err(ProblemDataError::Io { path: path.clone(), message: message.clone() })
        },
    }
}

/// Checks an asset of room `room_id` whose file is `file`: its URL must lie
/// under the room's asset path, name a well-formed file with a png, jpg, jpeg
/// or webp extension, and the file must be a regular file of at most 5 MiB
/// whose signature matches the extension.
pub fn validate_asset(asset: &Asset, room_id: u128, file: &AssetFile, field: &str) -> (r: Result<
    (),
    ProblemDataError,
>)
    ensures
        match asset_fault(asset.object_key@, room_id, *file, field@) {
            Some(fault) => r matches Err(e) && e.fault() == Some(fault),
            None => r is Ok,
        },
{
    let f = concat_str(field, ".url");
    let chars = to_chars(asset.object_key.as_str());
    let prefix = asset_url_prefix(room_id);
    if !starts_with(&chars, &prefix) {
        return Err(validation_error(f, "asset URL must contain its parent room ID"));
    }
    let name = chars_from(&chars, prefix.len());
    if !check_file_name(&name) {
        return Err(validation_error(f, "asset file name has an invalid format"));
    }
    match expected_format(&name) {
        None => Err(validation_error(f, "asset extension must be png, jpg, jpeg, or webp")),
        Some(expected) => check_asset_file(file, expected, f),
    }
}

// ---------------------------------------------------------------------------
// Problems
// ---------------------------------------------------------------------------

/// An issue as a fault.
pub open spec fn invalid(issue: Option<Issue>) -> Option<DataFault> {
    match issue {
        Some(i) => Some(DataFault::Invalid(i)),
        None => None,
    }
}

/// The issue with allowed control `k`, given that the earlier ones have
/// none: it is blank, or equal to an earlier control.
pub open spec fn control_issue(cs: Seq<Seq<char>>, k: int, base: Seq<char>) -> Option<Issue> {
    let f = indexed_field(base, k as nat);
    if all_white_space(cs[k]) {
        Some((f, "must not be empty"@))
    } else if exists|j: int| 0 <= j < k && cs[j] == cs[k] {
        Some((f, "controls must not be duplicated"@))
    } else {
        None
    }
}

/// The first issue among allowed controls `i` and later.
pub open spec fn first_control_issue(cs: Seq<Seq<char>>, i: int, base: Seq<char>) -> Option<Issue>
    decreases cs.len() - i,
{
    if i < 0 || i >= cs.len() {
        None
    } else {
        match control_issue(cs, i, base) {
            Some(issue) => Some(issue),
            None => first_control_issue(cs, i + 1, base),
        }
    }
}

/// Checks that every allowed control is non-blank and that no control is
/// repeated; `base` names the list.
#[verifier::loop_isolation(false)]
pub fn validate_controls(controls: &Vec<String>, base: &str) -> (r: Result<(), ProblemDataError>)
    ensures
        match first_control_issue(strings_value(controls@), 0, base@) {
            Some(issue) => r matches Err(e) && e.issue() == Some(issue),
            None => r is Ok,
        },
{
    let ghost cs = strings_value(controls@);
    let n = controls.len();
    for k in 0..n
        invariant
            n == controls@.len(),
            cs == strings_value(controls@),
            first_control_issue(cs, 0, base@) == first_control_issue(cs, k as int, base@),
    {
        let f = field_index(base, k);
        if is_blank(controls[k].as_str()) {
            return Err(validation_error(f, "must not be empty"));
        }
        let mut j: usize = 0;
        while j < k
            invariant
                j <= k,
                k < n,
                n == controls@.len(),
                cs == strings_value(controls@),
                forall|t: int| 0 <= t < j ==> cs[t] != cs[k as int],
            decreases k - j,
        {
            if string_eq(&controls[j], &controls[k]) {
                assert(cs[j as int] == cs[k as int]);
                return Err(validation_error(f, "controls must not be duplicated"));
            }
            j += 1;
        }
    }
    Ok(())
}

/// The first blank hint among hints `i` and later.
pub open spec fn first_hint_issue(hints: Seq<Hint>, i: int, base: Seq<char>) -> Option<Issue>
    decreases hints.len() - i,
{
    if i < 0 || i >= hints.len() {
        None
    } else if all_white_space(hints[i].body_markdown@) {
        Some((indexed_field(base, i as nat) + ".body_markdown"@, "must not be empty"@))
    } else {
        first_hint_issue(hints, i + 1, base)
    }
}

/// Checks that no hint is blank; `base` names the list.
pub fn validate_hints(hints: &Vec<Hint>, base: &str) -> (r: Result<(), ProblemDataError>)
    ensures
        match first_hint_issue(hints@, 0, base@) {
            Some(issue) => r matches Err(e) && e.issue() == Some(issue),
            None => r is Ok,
        },
{
    let n = hints.len();
    for k in 0..n
        invariant
            n == hints@.len(),
            first_hint_issue(hints@, 0, base@) == first_hint_issue(hints@, k as int, base@),
    {
        if is_blank(hints[k].body_markdown.as_str()) {
            let f = concat_str(field_index(base, k).as_str(), ".body_markdown");
            return Err(validation_error(f, "must not be empty"));
        }
    }
    Ok(())
}

/// What asset `a`, whose file is `file`, reports against the field `af`.
pub open spec fn asset_entry_fault(a: Asset, room_id: u128, file: AssetFile, af: Seq<char>) -> Option<
    DataFault,
> {
    if a.asset_type@ != "image"@ {
        Some(DataFault::Invalid((af + ".type"@, "asset type must be image"@)))
    } else if all_white_space(a.object_key@) {
        Some(DataFault::Invalid((af + ".url"@, "must not be empty"@)))
    } else if all_white_space(a.alt@) {
        Some(DataFault::Invalid((af + ".alt"@, "must not be empty"@)))
    } else {
        asset_fault(a.object_key@, room_id, file, af)
    }
}

/// The first fault among assets `i` and later.
pub open spec fn first_asset_fault(
    assets: Seq<Asset>,
    files: Seq<AssetFile>,
    room_id: u128,
    base: Seq<char>,
    i: int,
) -> Option<DataFault>
    decreases assets.len() - i,
{
    if i < 0 || i >= assets.len() {
        None
    } else {
        match asset_entry_fault(assets[i], room_id, files[i], indexed_field(base, i as nat)) {
            Some(f) => Some(f),
            None => first_asset_fault(assets, files, room_id, base, i + 1),
        }
    }
}

/// Checks the assets of a problem of room `room_id`; `files[i]` is the file
/// that asset `i` names.
pub fn validate_assets(assets: &Vec<Asset>, files: &Vec<AssetFile>, room_id: u128, base: &str) -> (r:
    Result<(), ProblemDataError>)
    requires
        files@.len() == assets@.len(),
    ensures
        match first_asset_fault(assets@, files@, room_id, base@, 0) {
            Some(fault) => r matches Err(e) && e.fault() == Some(fault),
            None => r is Ok,
        },
{
    let n = assets.len();
    for k in 0..n
        invariant
            n == assets@.len(),
            files@.len() == n,
            first_asset_fault(assets@, files@, room_id, base@, 0) == first_asset_fault(
                assets@,
                files@,
                room_id,
                base@,
                k as int,
            ),
    {
        let asset = &assets[k];
        let af = field_index(base, k);
        if !str_eq(asset.asset_type.as_str(), "image") {
            return Err(validation_error(concat_str(af.as_str(), ".type"), "asset type must be image"));
        }
        require_non_empty(asset.object_key.as_str(), concat_str(af.as_str(), ".url"))?;
        require_non_empty(asset.alt.as_str(), concat_str(af.as_str(), ".alt"))?;
        validate_asset(asset, room_id, &files[k], af.as_str())?;
    }
    Ok(())
}

/// The issue with a judge configuration under the problem's submission type
/// and input schema.
pub open spec fn judge_config_issue(
    submission: SubmissionType,
    config: JudgeConfigInput,
    schema: InputSchema,
    field: Seq<char>,
) -> Option<Issue> {
    match config {
        JudgeConfigInput::OperationSequence { correct_operations, candidates } => if submission
            == SubmissionType::OperationSequence {
            operation_config_issue(
                ops_value(correct_operations@),
                candidates@,
                strings_value(schema.query.allowed_controls@),
                schema.query.max_operations as int,
                field,
            )
        } else {
            Some((field, "judge config type must match submission type"@))
        },
        JudgeConfigInput::String { accepted_answers, normalization } => if submission
            == SubmissionType::String {
            string_config_issue(accepted_answers@, normalization, schema.answer.max_length as int, field)
        } else {
            Some((field, "judge config type must match submission type"@))
        },
    }
}

/// `out` is the validated form of `config`: operation sequences normalized and
/// candidate IDs trimmed, or accepted answers normalized.
pub open spec fn judge_config_validated(config: JudgeConfigInput, out: JudgeConfig) -> bool {
    match config {
        JudgeConfigInput::OperationSequence { correct_operations, candidates } => out matches JudgeConfig::OperationSequence { correct_operations: c, candidates: cs }
            && ops_value(c@) == normalize_ops(ops_value(correct_operations@)) && cs@.len()
            == candidates@.len() && forall|i: int| 0 <= i < cs@.len() ==> (#[trigger] cs@[i]).candidate_id@
            == candidate_key(candidates@, i) && ops_value(cs@[i].operations@) == candidate_norm(candidates@, i),
        JudgeConfigInput::String { accepted_answers, normalization } => out matches JudgeConfig::String { accepted_answers: a, normalization: n }
            && n == normalization && a@.len() == accepted_answers@.len() && forall|i: int|
            0 <= i < a@.len() ==> (#[trigger] a@[i])@ == answer_norm(accepted_answers@, normalization, i),
    }
}

/// Checks a judge configuration against the problem's submission type and
/// input schema, and returns its validated form.
pub fn validate_judge_config(
    submission: SubmissionType,
    config: JudgeConfigInput,
    schema: &InputSchema,
    field: &str,
) -> (r: Result<JudgeConfig, ProblemDataError>)
    ensures
        match judge_config_issue(submission, config, *schema, field@) {
            Some(issue) => r matches Err(e) && e.issue() == Some(issue),
            None => r matches Ok(out) && judge_config_validated(config, out),
        },
{
    match config {
        JudgeConfigInput::OperationSequence { correct_operations, candidates } => {
            if submission != SubmissionType::OperationSequence {
                return Err(validation_error(String::from_str(field), "judge config type must match submission type"));
            }
            validate_operation_judge_config(
                correct_operations,
                candidates,
                &schema.query.allowed_controls,
                schema.query.max_operations,
                field,
            )
        },
        JudgeConfigInput::String { accepted_answers, normalization } => {
            if submission != SubmissionType::String {
                return Err(validation_error(String::from_str(field), "judge config type must match submission type"));
            }
            validate_string_judge_config(accepted_answers, normalization, schema.answer.max_length, field)
        },
    }
}

/// Parses a UUID, failing with "must be a valid UUID" on `field`.
pub fn parse_uuid(value: &str, field: String) -> (r: Result<u128, ProblemDataError>)
    ensures
        match uuid_parse_of(value@) {
            Some(id) => r == Ok::<u128, ProblemDataError>(id),
            None => r matches Err(e) && e.issue() == Some((field@, "must be a valid UUID"@)),
        },
{
    match parse_uuid_text(value) {
        Some(id) => Ok(id),
        None => Err(validation_error(field, "must be a valid UUID")),
    }
}

/// The dependency a problem input names, parsed.
pub open spec fn dependency_of(input: ProblemInput) -> Option<u128> {
    match input.depends_on_problem_id {
        Some(d) => uuid_parse_of(d@),
        None => None,
    }
}

/// The fault of problem input `index` of room `room_id`, whose asset files
/// are `files`, if it has one. The checks run in this order: IDs, number,
/// texts, input schema, allowed controls, assets, hints, dependency, judge
/// configuration.
pub open spec fn problem_fault(
    input: ProblemInput,
    room_id: u128,
    index: nat,
    files: Seq<AssetFile>,
) -> Option<DataFault> {
    let fp = indexed_field("problems"@, index);
    let controls = fp + ".input_schema.query.allowed_controls"@;
    if uuid_parse_of(input.problem_id@) is None {
        Some(DataFault::Invalid((fp + ".problem_id"@, "must be a valid UUID"@)))
    } else if uuid_parse_of(input.room_id@) is None {
        Some(DataFault::Invalid((fp + ".room_id"@, "must be a valid UUID"@)))
    } else if uuid_parse_of(input.room_id@) != Some(room_id) {
        Some(DataFault::Invalid((fp + ".room_id"@, "problem room ID must match its parent room"@)))
    } else if input.number <= 0 {
        Some(DataFault::Invalid((fp + ".number"@, "problem number must be greater than zero"@)))
    } else if all_white_space(input.title@) {
        Some(DataFault::Invalid((fp + ".title"@, "must not be empty"@)))
    } else if all_white_space(input.body_markdown@) {
        Some(DataFault::Invalid((fp + ".body_markdown"@, "must not be empty"@)))
    } else if input.input_schema.query.max_operations <= 0 {
        Some(
            DataFault::Invalid(
                (
                    fp + ".input_schema.query.max_operations"@,
                    "max operations must be greater than zero"@,
                ),
            ),
        )
    } else if input.input_schema.answer.max_length <= 0 {
        Some(
            DataFault::Invalid(
                (fp + ".input_schema.answer.max_length"@, "max length must be greater than zero"@),
            ),
        )
    } else if input.input_schema.query.allowed_controls@.len() == 0 {
        Some(DataFault::Invalid((controls, "at least one control is required"@)))
    } else if first_control_issue(strings_value(input.input_schema.query.allowed_controls@), 0, controls) is Some {
        invalid(first_control_issue(strings_value(input.input_schema.query.allowed_controls@), 0, controls))
    } else if first_asset_fault(input.assets@, files, room_id, fp + ".assets"@, 0) is Some {
        first_asset_fault(input.assets@, files, room_id, fp + ".assets"@, 0)
    } else if first_hint_issue(input.hints@, 0, fp + ".hints"@) is Some {
        invalid(first_hint_issue(input.hints@, 0, fp + ".hints"@))
    } else if input.depends_on_problem_id is Some && dependency_of(input) is None {
        Some(DataFault::Invalid((fp + ".depends_on_problem_id"@, "must be a valid UUID"@)))
    } else {
        invalid(
            judge_config_issue(
                input.submission_type,
                input.judge_config,
                input.input_schema,
                fp + ".judge_config"@,
            ),
        )
    }
}

/// `p` is the problem built from the accepted input `input` of room `room_id`.
pub open spec fn problem_built(input: ProblemInput, room_id: u128, p: Problem) -> bool {
    &&& uuid_parse_of(input.problem_id@) == Some(p.problem_id)
    &&& p.room_id == room_id
    &&& p.number == input.number
    &&& p.problem_type == input.problem_type
    &&& p.title == input.title
    &&& p.body_markdown == input.body_markdown
    &&& p.submission_type == input.submission_type
    &&& p.assets == input.assets
    &&& p.input_schema == input.input_schema
    &&& p.hints == input.hints
    &&& judge_config_validated(input.judge_config, p.judge_config)
    &&& p.depends_on_problem_id == dependency_of(input)
    &&& p.is_required == input.is_required
}

/// Where no allowed control from `i` on has an issue, none of them has one.
proof fn lemma_controls_clean(cs: Seq<Seq<char>>, i: int, base: Seq<char>)
    requires
        0 <= i,
        first_control_issue(cs, i, base) is None,
    ensures
        forall|k: int| i <= k < cs.len() ==> #[trigger] control_issue(cs, k, base) is None,
    decreases cs.len() - i,
{
    if i < cs.len() {
        lemma_controls_clean(cs, i + 1, base);
    }
}

/// Where no hint from `i` on is blank, none of them is.
proof fn lemma_hints_clean(hints: Seq<Hint>, i: int, base: Seq<char>)
    requires
        0 <= i,
        first_hint_issue(hints, i, base) is None,
    ensures
        forall|k: int| i <= k < hints.len() ==> !all_white_space((#[trigger] hints[k]).body_markdown@),
    decreases hints.len() - i,
{
    if i < hints.len() {
        lemma_hints_clean(hints, i + 1, base);
    }
}

/// Where no asset from `i` on has a fault, none of them has one.
proof fn lemma_assets_clean(
    assets: Seq<Asset>,
    files: Seq<AssetFile>,
    room_id: u128,
    base: Seq<char>,
    i: int,
)
    requires
        0 <= i,
        first_asset_fault(assets, files, room_id, base, i) is None,
    ensures
        forall|k: int|
            i <= k < assets.len() ==> asset_entry_fault(
                #[trigger] assets[k],
                room_id,
                files[k],
                indexed_field(base, k as nat),
            ) is None,
    decreases assets.len() - i,
{
    if i < assets.len() {
        lemma_assets_clean(assets, files, room_id, base, i + 1);
    }
}

/// A problem input that the checks accept has a valid problem ID and its
/// room's ID, a positive number, limits above zero, non-blank title, body
/// and hints, at least one allowed control with none blank and none
/// repeated, image assets whose URL and alternative text are not blank and
/// whose files pass, and a judge configuration of the kind its submission
/// type names.
pub proof fn lemma_accepted_problem(input: ProblemInput, room_id: u128, index: nat, files: Seq<AssetFile>)
    requires
        problem_fault(input, room_id, index, files) is None,
    ensures
        uuid_parse_of(input.problem_id@) is Some,
        uuid_parse_of(input.room_id@) == Some(room_id),
        input.number > 0,
        input.input_schema.query.max_operations > 0,
        input.input_schema.answer.max_length > 0,
        !all_white_space(input.title@),
        !all_white_space(input.body_markdown@),
        input.input_schema.query.allowed_controls@.len() > 0,
        forall|k: int|
            0 <= k < input.input_schema.query.allowed_controls@.len() ==> !all_white_space(
                (#[trigger] input.input_schema.query.allowed_controls@[k])@,
            ),
        forall|j: int, k: int|
            0 <= j < k < input.input_schema.query.allowed_controls@.len()
                ==> (#[trigger] input.input_schema.query.allowed_controls@[j])@
                != (#[trigger] input.input_schema.query.allowed_controls@[k])@,
        forall|k: int| 0 <= k < input.hints@.len() ==> !all_white_space((#[trigger] input.hints@[k]).body_markdown@),
        forall|k: int|
            0 <= k < input.assets@.len() ==> (#[trigger] input.assets@[k]).asset_type@ == "image"@
                && !all_white_space(input.assets@[k].object_key@) && !all_white_space(
                input.assets@[k].alt@,
            ),
        (input.judge_config is OperationSequence) == (input.submission_type
            == SubmissionType::OperationSequence),
{
    let fp = indexed_field("problems"@, index);
    let controls = fp + ".input_schema.query.allowed_controls"@;
    let cs = strings_value(input.input_schema.query.allowed_controls@);
    lemma_controls_clean(cs, 0, controls);
    lemma_hints_clean(input.hints@, 0, fp + ".hints"@);
    lemma_assets_clean(input.assets@, files, room_id, fp + ".assets"@, 0);
    assert forall|k: int|
        0 <= k < input.input_schema.query.allowed_controls@.len() implies !all_white_space(
        (#[trigger] input.input_schema.query.allowed_controls@[k])@,
    ) by {
        assert(control_issue(cs, k, controls) is None);
        assert(cs[k] == input.input_schema.query.allowed_controls@[k]@);
    }
    assert forall|j: int, k: int|
        0 <= j < k < input.input_schema.query.allowed_controls@.len()
        implies (#[trigger] input.input_schema.query.allowed_controls@[j])@
        != (#[trigger] input.input_schema.query.allowed_controls@[k])@ by {
        assert(control_issue(cs, k, controls) is None);
        assert(cs[j] == input.input_schema.query.allowed_controls@[j]@);
        assert(cs[k] == input.input_schema.query.allowed_controls@[k]@);
    }
    assert forall|k: int| 0 <= k < input.assets@.len() implies (#[trigger] input.assets@[k]).asset_type@
        == "image"@ && !all_white_space(input.assets@[k].object_key@) && !all_white_space(
        input.assets@[k].alt@,
    ) by {
        assert(asset_entry_fault(
            input.assets@[k],
            room_id,
            files[k],
            indexed_field(fp + ".assets"@, k as nat),
        ) is None);
    }
}

/// Checks problem `index` of the room `expected_room_id` and builds it;
/// `files[i]` is the file that its asset `i` names.
#[verifier::rlimit(40)]
pub fn validate_problem(
    input: ProblemInput,
    expected_room_id: u128,
    index: usize,
    files: &Vec<AssetFile>,
) -> (r: Result<Problem, ProblemDataError>)
    requires
        files@.len() == input.assets@.len(),
    ensures
        match problem_fault(input, expected_room_id, index as nat, files@) {
            Some(fault) => r matches Err(e) && e.fault() == Some(fault),
            None => r matches Ok(p) && problem_built(input, expected_room_id, p),
        },
{
    let fp = field_index("problems", index);
    let problem_id = parse_uuid(input.problem_id.as_str(), concat_str(fp.as_str(), ".problem_id"))?;
    let room_id = parse_uuid(input.room_id.as_str(), concat_str(fp.as_str(), ".room_id"))?;
    if room_id != expected_room_id {
        return Err(validation_error(concat_str(fp.as_str(), ".room_id"), "problem room ID must match its parent room"));
    }
    if input.number <= 0 {
        return Err(validation_error(concat_str(fp.as_str(), ".number"), "problem number must be greater than zero"));
    }
    require_non_empty(input.title.as_str(), concat_str(fp.as_str(), ".title"))?;
    require_non_empty(input.body_markdown.as_str(), concat_str(fp.as_str(), ".body_markdown"))?;
    if input.input_schema.query.max_operations <= 0 {
        return Err(
            validation_error(
                concat_str(fp.as_str(), ".input_schema.query.max_operations"),
                "max operations must be greater than zero",
            ),
        );
    }
    if input.input_schema.answer.max_length <= 0 {
        return Err(
            validation_error(
                concat_str(fp.as_str(), ".input_schema.answer.max_length"),
                "max length must be greater than zero",
            ),
        );
    }
    let controls = concat_str(fp.as_str(), ".input_schema.query.allowed_controls");
    if input.input_schema.query.allowed_controls.len() == 0 {
        return Err(validation_error(controls, "at least one control is required"));
    }
    validate_controls(&input.input_schema.query.allowed_controls, controls.as_str())?;
    validate_assets(&input.assets, files, expected_room_id, concat_str(fp.as_str(), ".assets").as_str())?;
    validate_hints(&input.hints, concat_str(fp.as_str(), ".hints").as_str())?;
    let depends_on_problem_id = match &input.depends_on_problem_id {
        Some(d) => Some(parse_uuid(d.as_str(), concat_str(fp.as_str(), ".depends_on_problem_id"))?),
        None => None,
    };
    let judge_config = validate_judge_config(
        input.submission_type,
        input.judge_config,
        &input.input_schema,
        concat_str(fp.as_str(), ".judge_config").as_str(),
    )?;
    Ok(Problem {
        problem_id,
        room_id,
        number: input.number,
        problem_type: input.problem_type,
        title: input.title,
        body_markdown: input.body_markdown,
        submission_type: input.submission_type,
        assets: input.assets,
        input_schema: input.input_schema,
        hints: input.hints,
        judge_config,
        depends_on_problem_id,
        is_required: input.is_required,
    })
}

// ---------------------------------------------------------------------------
// Room files
// ---------------------------------------------------------------------------

/// The first fault among problems `i` and later of room `room_id`;
/// `files[k]` holds the asset files of problem `k`.
pub open spec fn first_problem_fault(
    problems: Seq<ProblemInput>,
    room_id: u128,
    files: Seq<Vec<AssetFile>>,
    i: int,
) -> Option<DataFault>
    decreases problems.len() - i,
{
    if i < 0 || i >= problems.len() {
        None
    } else {
        match problem_fault(problems[i], room_id, i as nat, files[i]@) {
            Some(f) => Some(f),
            None => first_problem_fault(problems, room_id, files, i + 1),
        }
    }
}

/// The fault of a room file kept in the directory named `directory`
/// (`None` when the name is not valid UTF-8), if it has one.
pub open spec fn room_fault(
    input: RoomFileInput,
    directory: Option<Seq<char>>,
    files: Seq<Vec<AssetFile>>,
) -> Option<DataFault> {
    match uuid_parse_of(input.room.room_id@) {
        None => Some(DataFault::Invalid(("room.room_id"@, "must be a valid UUID"@))),
        Some(room_id) => match directory {
            None => Some(DataFault::Invalid(("room"@, "room directory name must be valid UTF-8"@))),
            Some(d) => if d != uuid_text_of(room_id) {
                Some(DataFault::Invalid(("room.room_id"@, "room ID must match its directory name"@)))
            } else if input.room.number <= 0 {
                Some(DataFault::Invalid(("room.number"@, "room number must be greater than zero"@)))
            } else if all_white_space(input.room.name@) {
                Some(DataFault::Invalid(("room.name"@, "must not be empty"@)))
            } else if all_white_space(input.room.genre@) {
                Some(DataFault::Invalid(("room.genre"@, "must not be empty"@)))
            } else if all_white_space(input.room.description@) {
                Some(DataFault::Invalid(("room.description"@, "must not be empty"@)))
            } else {
                first_problem_fault(input.problems@, room_id, files, 0)
            },
        },
    }
}

/// Checks a room file kept in the directory named `directory_name` (`None`
/// when the name is not valid UTF-8) and builds the room; `files[k][i]` is the
/// file that asset `i` of problem `k` names.
#[verifier::loop_isolation(false)]
pub fn validate_room_file(
    input: RoomFileInput,
    directory_name: Option<&str>,
    files: &Vec<Vec<AssetFile>>,
) -> (r: Result<Room, ProblemDataError>)
    requires
        files@.len() == input.problems@.len(),
        forall|k: int| 0 <= k < files@.len() ==> (#[trigger] files@[k])@.len()
            == input.problems@[k].assets@.len(),
    ensures
        match room_fault(
            input,
            match directory_name {
                Some(d) => Some(d@),
                None => None,
            },
            files@,
        ) {
            Some(fault) => r matches Err(e) && e.fault() == Some(fault),
            None => r matches Ok(room) && Some(room.room_id) == uuid_parse_of(input.room.room_id@)
                && room.number == input.room.number && room.name == input.room.name && room.genre
                == input.room.genre && room.description == input.room.description
                && room.problems@.len() == input.problems@.len() && forall|k: int|
                0 <= k < room.problems@.len() ==> problem_built(
                    #[trigger] input.problems@[k],
                    room.room_id,
                    room.problems@[k],
                ),
        },
{
    let room_id = parse_uuid(input.room.room_id.as_str(), String::from_str("room.room_id"))?;
    let directory = match directory_name {
        Some(d) => d,
        None => {
            return Err(validation_error(String::from_str("room"), "room directory name must be valid UTF-8"));
        },
    };
    let id_text = uuid_text(room_id);
    if !str_eq(directory, id_text.as_str()) {
        return Err(validation_error(String::from_str("room.room_id"), "room ID must match its directory name"));
    }
    if input.room.number <= 0 {
        return Err(validation_error(String::from_str("room.number"), "room number must be greater than zero"));
    }
    require_non_empty(input.room.name.as_str(), String::from_str("room.name"))?;
    require_non_empty(input.room.genre.as_str(), String::from_str("room.genre"))?;
    require_non_empty(input.room.description.as_str(), String::from_str("room.description"))?;
    let ghost inputs = input.problems@;
    let mut problems: Vec<Problem> = Vec::new();
    let mut index: usize = 0;
    let count = files.len();
    for problem in it: input.problems
        invariant
            it.seq() == inputs,
            count == files@.len(),
            index == it.index(),
            index <= inputs.len(),
            problems@.len() == index,
            first_problem_fault(inputs, room_id, files@, 0) == first_problem_fault(
                inputs,
                room_id,
                files@,
                index as int,
            ),
            forall|k: int| 0 <= k < index ==> problem_built(
                #[trigger] inputs[k],
                room_id,
                problems@[k],
            ),
    {
        let built = validate_problem(problem, room_id, index, &files[index])?;
        problems.push(built);
        index += 1;
    }
    Ok(Room {
        room_id,
        number: input.room.number,
        name: input.room.name,
        genre: input.room.genre,
        description: input.room.description,
        problems,
    })
}

} // verus!
