//! Names of the entries inside an archive.
use vstd::prelude::*;
use vstd::utf8::*;
use crate::fs_path::{FsPath, PathPart, PartView, PathView};

verus! {

/// Why a relative path has no name inside an archive.
pub enum ArchivePathError {
    /// A component is a root, prefix, `.` or `..`.
    NotRelative,
    /// A name is not valid Unicode.
    NotUnicode,
    /// A name holds a backslash.
    Backslash,
}

impl ArchivePathError {
    /// The message for this error.
    pub open spec fn spec_message(self) -> Seq<char> {
        match self {
            ArchivePathError::NotRelative => "Archive paths must be relative"@,
            ArchivePathError::NotUnicode => "Order filenames must be valid Unicode"@,
            ArchivePathError::Backslash => "Backslashes in filenames are unsupported"@,
        }
    }

    /// The message for this error.
    pub fn message(&self) -> (text: String)
        ensures
            text@ == self.spec_message(),
    {
        match self {
            ArchivePathError::NotRelative => String::from_str("Archive paths must be relative"),
            ArchivePathError::NotUnicode => String::from_str("Order filenames must be valid Unicode"),
            ArchivePathError::Backslash => String::from_str("Backslashes in filenames are unsupported"),
        }
    }
}

/// The text of one component inside an archive name: a name that decodes as
/// UTF-8 and holds no backslash.
pub open spec fn part_text(part: PartView) -> Result<Seq<char>, ArchivePathError> {
    match part {
        PartView::Name(bytes) => if !valid_utf8(bytes) {
            Err(ArchivePathError::NotUnicode)
        } else if decode_utf8(bytes).contains('\\') {
            Err(ArchivePathError::Backslash)
        } else {
            Ok(decode_utf8(bytes))
        },
        _ => Err(ArchivePathError::NotRelative),
    }
}

/// The texts of all components, or the error of the first one that has none.
pub open spec fn part_texts(parts: PathView) -> Result<Seq<Seq<char>>, ArchivePathError>
    decreases parts.len(),
{
    if parts.len() == 0 {
        Ok(Seq::empty())
    } else {
        match part_texts(parts.drop_last()) {
            Err(e) => Err(e),
            Ok(texts) => match part_text(parts.last()) {
                Err(e) => Err(e),
                Ok(t) => Ok(texts.push(t)),
            },
        }
    }
}

/// The texts joined by `sep`.
pub open spec fn join_with(texts: Seq<Seq<char>>, sep: char) -> Seq<char>
    decreases texts.len(),
{
    if texts.len() == 0 {
        Seq::empty()
    } else if texts.len() == 1 {
        texts[0]
    } else {
        join_with(texts.drop_last(), sep) + seq![sep] + texts.last()
    }
}

/// The name inside an archive of an entry at relative path `parts`: its
/// components joined by `/`.
pub open spec fn spec_archive_path(parts: PathView) -> Result<Seq<char>, ArchivePathError> {
    match part_texts(parts) {
        Ok(texts) => Ok(join_with(texts, '/')),
        Err(e) => Err(e),
    }
}

/// Decodes UTF-8 bytes into a string (`String::from_utf8`).
///
/// Trusted: `String::from_utf8` succeeds exactly on valid UTF-8 and then holds
/// the characters that the bytes encode, which is what vstd's `valid_utf8` and
/// `decode_utf8` describe.
#[verifier::external_body]
fn text_from_utf8(bytes: Vec<u8>) -> (text: Option<String>)
    ensures
        text is Some <==> valid_utf8(bytes@),
        text matches Some(t) ==> t@ == decode_utf8(bytes@),
{
    String::from_utf8(bytes).ok()
}

/// Whether `text` holds a backslash.
pub fn has_backslash(text: &str) -> (found: bool)
    ensures
        found == text@.contains('\\'),
{
    let n = text.unicode_len();
    let mut i: usize = 0;
    while i < n
        invariant
            n == text@.len(),
            i <= n,
            forall|j: int| 0 <= j < i ==> text@[j] != '\\',
        decreases n - i,
    {
        if text.get_char(i) == '\\' {
            return true;
        }
        i = i + 1;
    }
    false
}

/// The text of one component inside an archive name.
pub fn archive_part(part: &PathPart) -> (text: Result<String, ArchivePathError>)
    ensures
        match (text, part_text(part@)) {
            (Ok(t), Ok(s)) => t@ == s,
            (Err(e), Err(f)) => e == f,
            _ => false,
        },
{
    match part {
        PathPart::Name(bytes) => {
            let copied = crate::fs_path::copy_bytes(bytes);
            match text_from_utf8(copied) {
                None => Err(ArchivePathError::NotUnicode),
                Some(t) => {
                    if has_backslash(t.as_str()) {
                        Err(ArchivePathError::Backslash)
                    } else {
                        Ok(t)
                    }
                },
            }
        },
        _ => Err(ArchivePathError::NotRelative),
    }
}

/// The name inside an archive of an entry at the relative path `path`: its
/// components, each valid Unicode without a backslash, joined by `/`.
pub fn archive_path(path: &FsPath) -> (name: Result<String, ArchivePathError>)
    ensures
        match (name, spec_archive_path(path@)) {
            (Ok(t), Ok(s)) => t@ == s,
            (Err(e), Err(f)) => e == f,
            _ => false,
        },
{
    let mut out = String::new();
    let mut i: usize = 0;
    proof {
        reveal_strlit("/");
    }
    while i < path.parts.len()
        invariant
            i <= path.parts@.len(),
            part_texts(path@.subrange(0, i as int)) is Ok,
            out@ == join_with(part_texts(path@.subrange(0, i as int))->Ok_0, '/'),
            part_texts(path@.subrange(0, i as int))->Ok_0.len() == i,
            "/"@ == seq!['/'],
        decreases path.parts.len() - i,
    {
        let ghost prev = path@.subrange(0, i as int);
        let ghost next = path@.subrange(0, i + 1);
        assert(next.drop_last() =~= prev);
        assert(next.last() == path@[i as int]);
        match archive_part(&path.parts[i]) {
            Err(e) => {
                proof {
                    lemma_part_texts_error_extends(path@, i as int + 1);
                }
                return Err(e);
            },
            Ok(t) => {
                let ghost texts = part_texts(prev)->Ok_0;
                let ghost grown = texts.push(t@);
                assert(part_texts(next) == Ok::<Seq<Seq<char>>, ArchivePathError>(grown));
                assert(grown.drop_last() =~= texts);
                if i > 0 {
                    out.append("/");
                } else {
                    assert(out@ =~= Seq::<char>::empty());
                }
                out.append(t.as_str());
                assert(out@ =~= join_with(grown, '/'));
                i = i + 1;
            },
        }
    }
    assert(path@.subrange(0, path@.len() as int) =~= path@);
    Ok(out)
}

/// An error in the texts of a prefix of `parts` is the error of all of them.
proof fn lemma_part_texts_error_extends(parts: PathView, n: int)
    requires
        0 <= n <= parts.len(),
        part_texts(parts.subrange(0, n)) is Err,
    ensures
        part_texts(parts) == part_texts(parts.subrange(0, n)),
    decreases parts.len() - n,
{
    if n == parts.len() {
        assert(parts.subrange(0, n) =~= parts);
    } else {
        let next = parts.subrange(0, n + 1);
        assert(next.drop_last() =~= parts.subrange(0, n));
        lemma_part_texts_error_extends(parts, n + 1);
    }
}

} // verus!
