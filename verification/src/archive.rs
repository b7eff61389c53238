use vstd::prelude::*;
use crate::errors::UpdateError;
use crate::plan::ArchiveEntry;

verus! {

#[verifier::external_type_specification]
#[verifier::external_body]
#[verifier::reject_recursive_types(T)]
pub struct ExCursor<T>(std::io::Cursor<T>);

#[verifier::external_type_specification]
#[verifier::external_body]
#[verifier::reject_recursive_types(R)]
pub struct ExZipArchive<R>(zip::read::ZipArchive<R>);

#[verifier::external_type_specification]
#[verifier::external_body]
pub struct ExZipError(zip::result::ZipError);

/// What a parsed archive holds: one (name, decompressed bytes, Unix mode)
/// triple per entry, in archive order.
pub uninterp spec fn archive_entries(a: zip::read::ZipArchive<std::io::Cursor<Vec<u8>>>) -> Seq<
    (Seq<char>, Seq<u8>, Option<u32>),
>;

/// What zip's parser makes of a byte string: the entries of the archive it
/// holds, or nothing when it cannot be opened and indexed.  For bytes held
/// in memory the outcome depends on them alone.
pub uninterp spec fn zip_parse(bytes: Seq<u8>) -> Option<Seq<(Seq<char>, Seq<u8>, Option<u32>)>>;

/// Whether entry `i` of the archive can be read out whole — opened,
/// decompressed and checked.  For an archive held in memory this depends
/// on the archive value alone.
pub uninterp spec fn entry_readable(
    a: zip::read::ZipArchive<std::io::Cursor<Vec<u8>>>,
    i: int,
) -> bool;

/// Relies on zip::ZipArchive::new: parse the central directory of a zip
/// archive held in memory.  It succeeds exactly when the bytes parse as an
/// archive, and the archive then holds the parsed entries; an archive that
/// cannot be indexed is refused with an error, never a panic.
#[verifier::external_body]
fn zip_open(bytes: Vec<u8>) -> (r: Result<
    zip::read::ZipArchive<std::io::Cursor<Vec<u8>>>,
    zip::result::ZipError,
>)
    ensures
        r is Ok <==> zip_parse(bytes@) is Some,
        r matches Ok(a) ==> archive_entries(a) == zip_parse(bytes@)->0,
{
    zip::read::ZipArchive::new(std::io::Cursor::new(bytes))
}

/// Relies on zip::ZipArchive::len: the number of entries the archive
/// holds.
#[verifier::external_body]
fn zip_len(a: &zip::read::ZipArchive<std::io::Cursor<Vec<u8>>>) -> (n: usize)
    ensures
        n == archive_entries(*a).len(),
{
    a.len()
}

/// Relies on zip::ZipArchive::by_index: yield entry `i` of the archive —
/// the name recorded for it, its decompressed bytes, and its Unix mode if
/// one is recorded.  Only the reader's position moves; the entry set and
/// what is readable of it stay as they were.  Reading succeeds exactly
/// when the entry can be read out whole; a corrupt, encrypted or
/// unsupported entry comes back as an error, never a panic.
#[verifier::external_body]
fn zip_entry(a: &mut zip::read::ZipArchive<std::io::Cursor<Vec<u8>>>, i: usize) -> (r: Result<
    ArchiveEntry,
    zip::result::ZipError,
>)
    requires
        i < archive_entries(*old(a)).len(),
    ensures
        archive_entries(*final(a)) == archive_entries(*old(a)),
        forall|k: int| #[trigger] entry_readable(*final(a), k) == entry_readable(*old(a), k),
        r is Ok <==> entry_readable(*old(a), i as int),
        r matches Ok(e) ==> e.deep_view() == archive_entries(*old(a))[i as int],
{
    let mut f = a.by_index(i)?;
    let name = f.name().to_owned();
    let unix_mode = f.unix_mode();
    let mut data = Vec::new();
    std::io::Read::read_to_end(&mut f, &mut data)?;
    Ok(ArchiveEntry { name, data, unix_mode })
}

/// The downloaded archive, opened and indexed, ready to be read out.
pub struct UpdateArchive {
    inner: zip::read::ZipArchive<std::io::Cursor<Vec<u8>>>,
}

impl View for UpdateArchive {
    type V = Seq<(Seq<char>, Seq<u8>, Option<u32>)>;

    closed spec fn view(&self) -> Seq<(Seq<char>, Seq<u8>, Option<u32>)> {
        archive_entries(self.inner)
    }
}

/// Open the downloaded bytes as a zip archive.  The whole archive must be
/// in hand before extraction begins, since its index sits at the end of
/// the stream.  Opening succeeds exactly when the bytes parse as an
/// archive, and the archive then holds the parsed entries; anything else
/// is corrupt.
pub fn open_archive(bytes: Vec<u8>) -> (r: Result<UpdateArchive, UpdateError>)
    ensures
        r is Ok <==> zip_parse(bytes@) is Some,
        r matches Ok(ar) ==> ar@ == zip_parse(bytes@)->0,
        r matches Err(e) ==> e == UpdateError::ArchiveCorrupt,
{
    match zip_open(bytes) {
        Ok(inner) => Ok(UpdateArchive { inner }),
        Err(_) => Err(UpdateError::ArchiveCorrupt),
    }
}

impl UpdateArchive {
    /// Whether entry `i` can be read out whole.
    pub closed spec fn entry_ok(&self, i: int) -> bool {
        entry_readable(self.inner, i)
    }

    /// Whether every entry can be read out: exactly when extraction
    /// succeeds.
    pub open spec fn all_entries_ok(&self) -> bool {
        forall|i: int| 0 <= i < self@.len() ==> self.entry_ok(i)
    }

    /// The number of entries the archive holds.
    pub fn entry_count(&self) -> (n: usize)
        ensures
            n == self@.len(),
    {
        zip_len(&self.inner)
    }

    /// Read every entry out of the archive, in archive order.  Reading
    /// succeeds exactly when every entry can be read out whole; a failure
    /// on any entry aborts the extraction, and nothing partial is handed
    /// back.
    pub fn read_entries(&mut self) -> (r: Result<Vec<ArchiveEntry>, UpdateError>)
        ensures
            final(self)@ == old(self)@,
            forall|i: int| #[trigger] final(self).entry_ok(i) == old(self).entry_ok(i),
            r is Ok <==> old(self).all_entries_ok(),
            r matches Ok(es) ==> es.deep_view() == old(self)@,
            r matches Err(e) ==> e == UpdateError::ExtractionFailure,
    {
        let ghost orig = self@;
        let n = zip_len(&self.inner);
        let mut out: Vec<ArchiveEntry> = Vec::new();
        proof {
            assert(out.deep_view() =~= orig.subrange(0, 0));
        }
        let mut i: usize = 0;
        while i < n
            invariant
                i <= n,
                orig == old(self)@,
                self@ == orig,
                n == orig.len(),
                forall|k: int| #[trigger] entry_readable(self.inner, k) == entry_readable(
                    old(self).inner,
                    k,
                ),
                forall|k: int| 0 <= k < i ==> old(self).entry_ok(k),
                out.deep_view() == orig.subrange(0, i as int),
            decreases n - i,
        {
            let ghost pre = self.inner;
            match zip_entry(&mut self.inner, i) {
                Ok(e) => {
                    let ghost prev = out.deep_view();
                    out.push(e);
                    proof {
                        assert(entry_readable(pre, i as int));
                        assert(old(self).entry_ok(i as int));
                        assert(forall|k: int|
                            0 <= k < prev.len() ==> #[trigger] out.deep_view()[k] == prev[k]);
                        assert(out.deep_view()[prev.len() as int] == e.deep_view());
                        assert(out.deep_view() =~= orig.subrange(0, i + 1));
                    }
                },
                Err(_) => {
                    proof {
                        assert(!entry_readable(pre, i as int));
                        assert(!old(self).entry_ok(i as int));
                        assert((i as int) < old(self)@.len());
                        assert(!old(self).all_entries_ok());
                    }
                    return Err(UpdateError::ExtractionFailure);
                },
            }
            i += 1;
        }
        proof {
            assert(orig.subrange(0, n as int) =~= orig);
            assert(old(self).all_entries_ok());
        }
        Ok(out)
    }
}

} // verus!
