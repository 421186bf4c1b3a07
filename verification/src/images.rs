//! Names and places for stored images.
//!
//! An uploaded image is kept under a fresh random identifier that carries
//! the extension of the name it was uploaded with. The stored name is all
//! there is to find the image again.

use vstd::prelude::*;
use crate::paths::{
    after_last, joined, lemma_after_last_bounds, lemma_after_last_is, position_after_last, resolve,
};
use crate::text::{from_chars, to_chars};

verus! {

/// `uuid::Uuid`: an identifier of 128 bits. Nothing of its inside is visible
/// here.
#[verifier::external_type_specification]
#[verifier::external_body]
pub struct ExUuid(uuid::Uuid);

/// The mark in front of an extension.
pub open spec fn dot() -> char {
    '.'
}

/// The extension of a file name: what follows its last dot, or `png` where
/// the name holds no dot.
pub open spec fn extension(filename: Seq<char>) -> Seq<char> {
    if filename.contains(dot()) {
        filename.subrange(after_last(filename, dot()), filename.len() as int)
    } else {
        "png"@
    }
}

/// The name under which an image is stored: an identifier, a dot, and the
/// extension of the name it was uploaded with.
pub open spec fn stored_name(id: Seq<char>, filename: Seq<char>) -> Seq<char> {
    id.push(dot()) + extension(filename)
}

/// The directory of the stored images below the configuration directory.
pub open spec fn images_directory(config_dir: Seq<char>) -> Seq<char> {
    joined(config_dir, "images"@)
}

/// Whether `c` is a lower-case hexadecimal digit.
pub open spec fn lower_hex(c: char) -> bool {
    ('0' <= c && c <= '9') || ('a' <= c && c <= 'f')
}

/// Whether `text` has the shape of a hyphenated identifier: 36 characters,
/// hyphens at positions 8, 13, 18 and 23, lower-case hexadecimal digits
/// elsewhere.
pub open spec fn hyphenated(text: Seq<char>) -> bool {
    &&& text.len() == 36
    &&& forall|i: int|
        0 <= i < 36 ==> if i == 8 || i == 13 || i == 18 || i == 23 {
            #[trigger] text[i] == '-'
        } else {
            lower_hex(text[i])
        }
}

/// Where an upload goes.
#[derive(Clone, Debug, PartialEq, Eq)]
pub struct Upload {
    /// The name the image is stored under, and found again by.
    pub name: String,
    /// The directory to make sure of before writing.
    pub directory: String,
    /// The file to write the image's bytes to.
    pub path: String,
}

/// `Uuid::new_v4`: a random identifier. Nothing is known of which one.
#[verifier::external_body]
fn random_id() -> (id: uuid::Uuid) {
    uuid::Uuid::new_v4()
}

/// The text of an identifier as its `Display` writes it: 32 lower-case
/// hexadecimal digits in groups of 8, 4, 4, 4 and 12, with a hyphen between
/// one group and the next.
#[verifier::external_body]
fn id_text(id: &uuid::Uuid) -> (text: String)
    ensures
        hyphenated(text@),
{
    id.to_string()
}

/// A file name holds a dot exactly if the position behind its last dot is
/// not the front, and an extension never holds a dot.
pub proof fn lemma_extension_has_no_dot(filename: Seq<char>)
    ensures
        filename.contains(dot()) <==> after_last(filename, dot()) > 0,
        !extension(filename).contains(dot()),
{
    lemma_after_last_bounds(filename, dot());
    let at: int = after_last(filename, dot());
    if at > 0 {
        assert(filename[at - 1] == dot());
    } else {
        assert forall|i: int| 0 <= i < filename.len() implies filename[i] != dot() by {}
    }
    reveal_strlit("png");
    let ext = extension(filename);
    assert forall|i: int| 0 <= i < ext.len() implies ext[i] != dot() by {
        if filename.contains(dot()) {
            assert(ext[i] == filename[at + i]);
        }
    }
}

/// The extension of a stored name is the extension of the name that the
/// image was uploaded with, or `png` where that name had none.
pub proof fn lemma_stored_name_keeps_extension(id: Seq<char>, filename: Seq<char>)
    ensures
        extension(stored_name(id, filename)) == extension(filename),
{
    let ext = extension(filename);
    let name = stored_name(id, filename);
    lemma_extension_has_no_dot(filename);
    assert(name[id.len() as int] == dot());
    assert forall|i: int| id.len() + 1 <= i < name.len() implies name[i] != dot() by {
        assert(name[i] == ext[i - id.len() - 1]);
    }
    let start: int = id.len() as int + 1;
    lemma_after_last_is(name, dot(), start);
    assert(name.subrange(start, name.len() as int) =~= ext);
}

/// The extension of `filename`.
pub fn extension_of(filename: &str) -> (ext: String)
    ensures
        ext@ == extension(filename@),
{
    let chars = to_chars(filename);
    let at: usize = position_after_last(&chars, '.');
    proof {
        lemma_extension_has_no_dot(chars@);
    }
    if at > 0 {
        from_chars(&chars, at, chars.len())
    } else {
        "png".to_owned()
    }
}

/// The name to store an image under, given its identifier and the name it
/// was uploaded with.
pub fn stored_image_name(id: &str, filename: &str) -> (name: String)
    ensures
        name@ == stored_name(id@, filename@),
{
    let mut name = id.to_owned();
    name.push('.');
    let ext = extension_of(filename);
    name.append(ext.as_str());
    name
}

/// The directory of the stored images.
pub fn images_dir(config_dir: &str) -> (directory: String)
    ensures
        directory@ == images_directory(config_dir@),
{
    resolve(config_dir, "images")
}

/// The file that holds the image stored under `name`.
pub fn image_path(config_dir: &str, name: &str) -> (path: String)
    ensures
        path@ == joined(images_directory(config_dir@), name@),
{
    let directory = images_dir(config_dir);
    resolve(directory.as_str(), name)
}

/// Where to store an image that was uploaded as `filename`. The stored name
/// begins with a fresh random identifier; the rest is a dot and the
/// extension of `filename`.
pub fn upload_image(config_dir: &str, filename: &str) -> (upload: Upload)
    ensures
        upload.name@.len() >= 36,
        hyphenated(upload.name@.subrange(0, 36)),
        upload.name@ == stored_name(upload.name@.subrange(0, 36), filename@),
        extension(upload.name@) == extension(filename@),
        upload.directory@ == images_directory(config_dir@),
        upload.path@ == joined(images_directory(config_dir@), upload.name@),
{
    let id = random_id();
    let text = id_text(&id);
    let name = stored_image_name(text.as_str(), filename);
    proof {
        assert(name@.subrange(0, 36) =~= text@);
        lemma_stored_name_keeps_extension(text@, filename@);
    }
    let directory = images_dir(config_dir);
    let path = resolve(directory.as_str(), name.as_str());
    Upload { name, directory, path }
}

} // verus!
