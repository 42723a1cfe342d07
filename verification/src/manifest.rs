//! The manifest of a published document: its files and the hash that
//! stands for all of them.

use sha2::Digest;
use vstd::prelude::*;
use vstd::string::*;

verus! {

/// A point in time: whole seconds since the start of 1970 in UTC, and the
/// nanoseconds of the second that has begun.
#[derive(Debug, Clone, Copy, PartialEq, Eq, Structural)]
pub struct Timestamp {
    pub seconds: i64,
    pub nanoseconds: u32,
}

/// The document that a manifest is about.
#[derive(Debug, Clone)]
pub struct ManifestSpecification {
    pub id: String,
    pub version: String,
    pub publisher: String,
    pub type_reference: String,
}

/// One file of a manifest.
#[derive(Debug, Clone)]
pub struct ManifestFile {
    pub path: String,
    pub size: u64,
    pub hash: String,
}

/// The manifest of a published document.
#[derive(Debug)]
pub struct CanonManifest {
    pub canon: String,
    pub manifest_version: String,
    pub created_at: Timestamp,
    pub specification: ManifestSpecification,
    pub files: Vec<ManifestFile>,
    pub directories: Option<Vec<String>>,
    pub total_size: u64,
    pub file_count: usize,
    pub canonical_hash: String,
}

/// The document that a manifest is about, as a plain value.
pub struct ManifestSpecificationView {
    pub id: Seq<char>,
    pub version: Seq<char>,
    pub publisher: Seq<char>,
    pub type_reference: Seq<char>,
}

/// One file of a manifest as a plain value.
pub struct ManifestFileView {
    pub path: Seq<char>,
    pub size: u64,
    pub hash: Seq<char>,
}

/// A manifest as a plain value.
pub struct CanonManifestView {
    pub canon: Seq<char>,
    pub manifest_version: Seq<char>,
    pub created_at: Timestamp,
    pub specification: ManifestSpecificationView,
    pub files: Seq<ManifestFileView>,
    pub directories: Option<Seq<Seq<char>>>,
    pub total_size: u64,
    pub file_count: usize,
    pub canonical_hash: Seq<char>,
}

impl View for ManifestSpecification {
    type V = ManifestSpecificationView;

    open spec fn view(&self) -> ManifestSpecificationView {
        ManifestSpecificationView {
            id: self.id@,
            version: self.version@,
            publisher: self.publisher@,
            type_reference: self.type_reference@,
        }
    }
}

impl View for ManifestFile {
    type V = ManifestFileView;

    open spec fn view(&self) -> ManifestFileView {
        ManifestFileView { path: self.path@, size: self.size, hash: self.hash@ }
    }
}

impl DeepView for ManifestFile {
    type V = ManifestFileView;

    open spec fn deep_view(&self) -> ManifestFileView {
        self@
    }
}

impl View for CanonManifest {
    type V = CanonManifestView;

    open spec fn view(&self) -> CanonManifestView {
        CanonManifestView {
            canon: self.canon@,
            manifest_version: self.manifest_version@,
            created_at: self.created_at,
            specification: self.specification@,
            files: self.files.deep_view(),
            directories: self.directories.deep_view(),
            total_size: self.total_size,
            file_count: self.file_count,
            canonical_hash: self.canonical_hash@,
        }
    }
}

/// The SHA-256 digest of `data`.
pub uninterp spec fn sha256(data: Seq<u8>) -> Seq<u8>;

/// `Sha256::digest` of the sha2 crate: the digest of the bytes, which
/// depends on the bytes alone.
#[verifier::external_body]
fn digest_sha256(data: &Vec<u8>) -> (digest: Vec<u8>)
    ensures
        digest@ == sha256(data@),
{
    sha2::Sha256::digest(data).to_vec()
}

/// Whether `a` comes before `b`: character by character, and a text
/// before every text that it starts.
pub open spec fn text_lt(a: Seq<char>, b: Seq<char>) -> bool
    decreases a.len(),
{
    if b.len() == 0 {
        false
    } else if a.len() == 0 {
        true
    } else if a[0] != b[0] {
        a[0] < b[0]
    } else {
        text_lt(a.drop_first(), b.drop_first())
    }
}

/// `sorted` with `file` put in behind every file whose path does not come
/// after its own.
pub open spec fn inserted(sorted: Seq<ManifestFileView>, file: ManifestFileView) -> Seq<ManifestFileView>
    decreases sorted.len(),
{
    if sorted.len() > 0 && text_lt(file.path, sorted.last().path) {
        inserted(sorted.drop_last(), file).push(sorted.last())
    } else {
        sorted.push(file)
    }
}

/// The files in the order of their paths; files of one path stay in the
/// order they were given in.
pub open spec fn sorted_by_path(files: Seq<ManifestFileView>) -> Seq<ManifestFileView>
    decreases files.len(),
{
    if files.len() == 0 {
        Seq::empty()
    } else {
        inserted(sorted_by_path(files.drop_last()), files.last())
    }
}

/// The bytes of the files' hashes in UTF-8, one hash after the other.
pub open spec fn hash_bytes(files: Seq<ManifestFileView>) -> Seq<u8>
    decreases files.len(),
{
    if files.len() == 0 {
        Seq::empty()
    } else {
        hash_bytes(files.drop_last()) + vstd::utf8::encode_utf8(files.last().hash)
    }
}

/// The hexadecimal digit of a value below sixteen, in lower case.
pub open spec fn hex_digit(d: int) -> char {
    if d == 0 {
        '0'
    } else if d == 1 {
        '1'
    } else if d == 2 {
        '2'
    } else if d == 3 {
        '3'
    } else if d == 4 {
        '4'
    } else if d == 5 {
        '5'
    } else if d == 6 {
        '6'
    } else if d == 7 {
        '7'
    } else if d == 8 {
        '8'
    } else if d == 9 {
        '9'
    } else if d == 10 {
        'a'
    } else if d == 11 {
        'b'
    } else if d == 12 {
        'c'
    } else if d == 13 {
        'd'
    } else if d == 14 {
        'e'
    } else {
        'f'
    }
}

/// The bytes in hexadecimal: two digits for each, in lower case.
pub open spec fn hex_text(bytes: Seq<u8>) -> Seq<char>
    decreases bytes.len(),
{
    if bytes.len() == 0 {
        Seq::empty()
    } else {
        hex_text(bytes.drop_last()).push(hex_digit(bytes.last() as int / 16)).push(
            hex_digit(bytes.last() as int % 16),
        )
    }
}

/// The hash text of a digest: the name of the algorithm, a colon and the
/// digest in hexadecimal.
pub open spec fn hash_text(digest: Seq<u8>) -> Seq<char> {
    "sha256:"@ + hex_text(digest)
}

/// The hash that stands for all files of a manifest: the digest of their
/// hashes, taken in the order of their paths.
pub open spec fn canonical_hash_of(files: Seq<ManifestFileView>) -> Seq<char> {
    hash_text(sha256(hash_bytes(sorted_by_path(files))))
}

/// The sizes of the files, added up.
pub open spec fn total_size_of(files: Seq<ManifestFileView>) -> nat
    decreases files.len(),
{
    if files.len() == 0 {
        0
    } else {
        total_size_of(files.drop_last()) + files.last().size as nat
    }
}

/// The manifest of `files` for the document `specification`, made at
/// `created_at`: it counts the files, adds up their sizes and takes their
/// canonical hash, and names no directories.
pub open spec fn manifest_of(
    specification: ManifestSpecificationView,
    files: Seq<ManifestFileView>,
    created_at: Timestamp,
) -> CanonManifestView {
    CanonManifestView {
        canon: "1.0"@,
        manifest_version: "1.0"@,
        created_at,
        specification,
        files,
        directories: None,
        total_size: total_size_of(files) as u64,
        file_count: files.len() as usize,
        canonical_hash: canonical_hash_of(files),
    }
}

/// The files at the positions that `order` names, in that order.
pub open spec fn picked(files: Seq<ManifestFileView>, order: Seq<usize>) -> Seq<ManifestFileView> {
    Seq::new(order.len(), |k: int| files[order[k] as int])
}

/// Putting a file in is the same as inserting it at the position that has
/// only later paths behind it and no later path right before it.
pub proof fn lemma_inserted_at(sorted: Seq<ManifestFileView>, file: ManifestFileView, p: int)
    requires
        0 <= p <= sorted.len(),
        forall|k: int| p <= k < sorted.len() ==> text_lt(file.path, (#[trigger] sorted[k]).path),
        p > 0 ==> !text_lt(file.path, sorted[p - 1].path),
    ensures
        inserted(sorted, file) == sorted.insert(p, file),
    decreases sorted.len(),
{
    if p == sorted.len() {
        assert(sorted.push(file) =~= sorted.insert(p, file));
    } else {
        let head = sorted.drop_last();
        assert(text_lt(file.path, sorted[sorted.len() - 1].path));
        assert forall|k: int| p <= k < head.len() implies text_lt(
            file.path,
            (#[trigger] head[k]).path,
        ) by {
            assert(head[k] == sorted[k]);
        }
        lemma_inserted_at(head, file, p);
        assert(head.insert(p, file).push(sorted.last()) =~= sorted.insert(p, file));
    }
}

/// Whether no file stands before one whose path comes before its own.
pub open spec fn ordered_by_path(files: Seq<ManifestFileView>) -> bool {
    forall|i: int, j: int|
        0 <= i < j < files.len() ==> !text_lt(
            (#[trigger] files[j]).path,
            (#[trigger] files[i]).path,
        )
}

/// Of two texts at most one comes before the other.
pub proof fn lemma_text_lt_asymmetric(a: Seq<char>, b: Seq<char>)
    requires
        text_lt(a, b),
    ensures
        !text_lt(b, a),
    decreases a.len(),
{
    if a.len() > 0 && b.len() > 0 && a[0] == b[0] {
        lemma_text_lt_asymmetric(a.drop_first(), b.drop_first());
    }
}

/// A text that comes before `b` comes before every text that `b` does not
/// come after.
pub proof fn lemma_text_lt_chain(a: Seq<char>, b: Seq<char>, c: Seq<char>)
    requires
        text_lt(a, b),
        !text_lt(c, b),
    ensures
        text_lt(a, c),
    decreases a.len(),
{
    if a.len() > 0 && a[0] == b[0] && c[0] == b[0] {
        lemma_text_lt_chain(a.drop_first(), b.drop_first(), c.drop_first());
    }
}

/// Putting a file into files that are in the order of their paths keeps
/// them so, adds the file and leaves all others in.
pub proof fn lemma_inserted_keeps_order(sorted: Seq<ManifestFileView>, file: ManifestFileView)
    requires
        ordered_by_path(sorted),
    ensures
        ordered_by_path(inserted(sorted, file)),
        inserted(sorted, file).len() == sorted.len() + 1,
        forall|k: int|
            0 <= k < inserted(sorted, file).len() ==> (#[trigger] inserted(sorted, file)[k]) == file
                || sorted.contains(inserted(sorted, file)[k]),
        inserted(sorted, file).to_multiset() == sorted.to_multiset().insert(file),
    decreases sorted.len(),
{
    broadcast use vstd::seq_lib::group_to_multiset_ensures;

    let after = inserted(sorted, file);
    if sorted.len() > 0 && text_lt(file.path, sorted.last().path) {
        let head = sorted.drop_last();
        let last = sorted.last();
        assert forall|i: int, j: int| 0 <= i < j < head.len() implies !text_lt(
            (#[trigger] head[j]).path,
            (#[trigger] head[i]).path,
        ) by {
            assert(head[i] == sorted[i] && head[j] == sorted[j]);
        }
        lemma_inserted_keeps_order(head, file);
        let middle = inserted(head, file);
        assert(after == middle.push(last));
        assert forall|k: int| 0 <= k < after.len() implies (#[trigger] after[k]) == file
            || sorted.contains(after[k]) by {
            if k < middle.len() {
                assert(after[k] == middle[k]);
                if middle[k] != file {
                    let at = choose|at: int| 0 <= at < head.len() && head[at] == middle[k];
                    assert(sorted[at] == middle[k]);
                }
            } else {
                assert(sorted[sorted.len() - 1] == after[k]);
            }
        }
        assert forall|i: int, j: int| 0 <= i < j < after.len() implies !text_lt(
            (#[trigger] after[j]).path,
            (#[trigger] after[i]).path,
        ) by {
            if j < middle.len() {
                assert(after[i] == middle[i] && after[j] == middle[j]);
            } else {
                assert(after[j] == last);
                assert(after[i] == middle[i]);
                if middle[i] == file {
                    lemma_text_lt_asymmetric(file.path, last.path);
                } else {
                    let at = choose|at: int| 0 <= at < head.len() && head[at] == middle[i];
                    assert(sorted[at] == middle[i]);
                    if at < sorted.len() - 1 {
                        assert(!text_lt(sorted[sorted.len() - 1].path, sorted[at].path));
                    }
                }
            }
        }
        assert(sorted =~= head.push(last));
        assert(after.to_multiset() =~= sorted.to_multiset().insert(file));
    } else {
        assert forall|k: int| 0 <= k < after.len() implies (#[trigger] after[k]) == file
            || sorted.contains(after[k]) by {
            if k < sorted.len() {
                assert(sorted[k] == after[k]);
            }
        }
        assert forall|i: int, j: int| 0 <= i < j < after.len() implies !text_lt(
            (#[trigger] after[j]).path,
            (#[trigger] after[i]).path,
        ) by {
            if j < sorted.len() {
                assert(after[i] == sorted[i] && after[j] == sorted[j]);
            } else {
                assert(after[j] == file);
                assert(after[i] == sorted[i]);
                if text_lt(file.path, sorted[i].path) {
                    if i < sorted.len() - 1 {
                        assert(!text_lt(sorted[sorted.len() - 1].path, sorted[i].path));
                    }
                    lemma_text_lt_chain(file.path, sorted[i].path, sorted.last().path);
                }
            }
        }
    }
}

/// The files in the order of their paths are the files that were given,
/// each as often as it was given, and none of them stands before one
/// whose path comes before its own.
pub proof fn lemma_sorted_by_path(files: Seq<ManifestFileView>)
    ensures
        ordered_by_path(sorted_by_path(files)),
        sorted_by_path(files).len() == files.len(),
        sorted_by_path(files).to_multiset() == files.to_multiset(),
    decreases files.len(),
{
    broadcast use vstd::seq_lib::group_to_multiset_ensures;

    if files.len() > 0 {
        lemma_sorted_by_path(files.drop_last());
        lemma_inserted_keeps_order(sorted_by_path(files.drop_last()), files.last());
        assert(files =~= files.drop_last().push(files.last()));
        assert(sorted_by_path(files).to_multiset() =~= files.to_multiset());
    } else {
        assert(sorted_by_path(files).to_multiset() =~= files.to_multiset());
    }
}

/// The files that a list starts with are no larger, added up, than all
/// of them.
pub proof fn lemma_total_size_prefix(files: Seq<ManifestFileView>, k: int)
    requires
        0 <= k <= files.len(),
    ensures
        total_size_of(files.take(k)) <= total_size_of(files),
    decreases files.len(),
{
    if k == files.len() {
        assert(files.take(k) =~= files);
    } else {
        lemma_total_size_prefix(files.drop_last(), k);
        assert(files.drop_last().take(k) =~= files.take(k));
    }
}

/// Whether `a` comes before `b`.
pub fn comes_before(a: &Vec<char>, b: &Vec<char>) -> (r: bool)
    ensures
        r == text_lt(a@, b@),
{
    let mut i: usize = 0;
    assert(a@.skip(0) =~= a@ && b@.skip(0) =~= b@);
    while i < a.len() && i < b.len()
        invariant
            i <= a@.len(),
            i <= b@.len(),
            text_lt(a@, b@) == text_lt(a@.skip(i as int), b@.skip(i as int)),
        decreases a@.len() - i,
    {
        assert(a@.skip(i as int)[0] == a@[i as int]);
        assert(b@.skip(i as int)[0] == b@[i as int]);
        if a[i] != b[i] {
            return a[i] < b[i];
        }
        assert(a@.skip(i as int).drop_first() =~= a@.skip(i + 1));
        assert(b@.skip(i as int).drop_first() =~= b@.skip(i + 1));
        i += 1;
    }
    i < b.len()
}

fn hex_digit_of(d: u8) -> (c: char)
    requires
        d < 16,
    ensures
        c == hex_digit(d as int),
{
    if d == 0 {
        '0'
    } else if d == 1 {
        '1'
    } else if d == 2 {
        '2'
    } else if d == 3 {
        '3'
    } else if d == 4 {
        '4'
    } else if d == 5 {
        '5'
    } else if d == 6 {
        '6'
    } else if d == 7 {
        '7'
    } else if d == 8 {
        '8'
    } else if d == 9 {
        '9'
    } else if d == 10 {
        'a'
    } else if d == 11 {
        'b'
    } else if d == 12 {
        'c'
    } else if d == 13 {
        'd'
    } else if d == 14 {
        'e'
    } else {
        'f'
    }
}

/// The hash text of a digest.
pub fn canonical_hash_text(digest: &Vec<u8>) -> (out: String)
    ensures
        out@ == hash_text(digest@),
{
    let mut out = String::from_str("sha256:");
    let mut i: usize = 0;
    assert(digest@.take(0) =~= Seq::<u8>::empty());
    assert("sha256:"@ + Seq::<char>::empty() =~= "sha256:"@);
    while i < digest.len()
        invariant
            i <= digest@.len(),
            out@ == "sha256:"@ + hex_text(digest@.take(i as int)),
        decreases digest@.len() - i,
    {
        let b = digest[i];
        assert(digest@.take(i + 1).drop_last() =~= digest@.take(i as int));
        out.push(hex_digit_of(b / 16));
        out.push(hex_digit_of(b % 16));
        assert(out@ =~= "sha256:"@ + hex_text(digest@.take(i + 1)));
        i += 1;
    }
    assert(digest@.take(digest@.len() as int) =~= digest@);
    out
}

/// The positions of the files in the order of their paths; files of one
/// path stay in the order they were given in.
pub fn path_order(files: &[ManifestFile]) -> (order: Vec<usize>)
    ensures
        order@.len() == files@.len(),
        forall|k: int| 0 <= k < order@.len() ==> (#[trigger] order@[k]) < files@.len(),
        picked(files.deep_view(), order@) == sorted_by_path(files.deep_view()),
{
    let ghost views = files.deep_view();
    let mut paths: Vec<Vec<char>> = Vec::new();
    let mut n: usize = 0;
    while n < files.len()
        invariant
            n <= files@.len(),
            paths@.len() == n,
            views == files.deep_view(),
            forall|k: int| 0 <= k < n ==> (#[trigger] paths@[k])@ == views[k].path,
        decreases files@.len() - n,
    {
        assert(views[n as int] == files@[n as int]@);
        paths.push(crate::text::chars_of(files[n].path.as_str()));
        n += 1;
    }
    let mut order: Vec<usize> = Vec::new();
    let mut i: usize = 0;
    assert(views.take(0) =~= Seq::<ManifestFileView>::empty());
    assert(picked(views, order@) =~= sorted_by_path(views.take(0)));
    while i < files.len()
        invariant
            i <= files@.len(),
            views.len() == files@.len(),
            paths@.len() == files@.len(),
            forall|k: int| 0 <= k < paths@.len() ==> (#[trigger] paths@[k])@ == views[k].path,
            order@.len() == i,
            forall|k: int| 0 <= k < order@.len() ==> (#[trigger] order@[k]) < i,
            picked(views, order@) == sorted_by_path(views.take(i as int)),
        decreases files@.len() - i,
    {
        let ghost sorted = picked(views, order@);
        let mut p: usize = order.len();
        while p > 0 && comes_before(&paths[i], &paths[order[p - 1]])
            invariant
                p <= order@.len(),
                i < files@.len(),
                order@.len() == i,
                views.len() == files@.len(),
                paths@.len() == files@.len(),
                sorted == picked(views, order@),
                forall|k: int| 0 <= k < paths@.len() ==> (#[trigger] paths@[k])@ == views[k].path,
                forall|k: int| 0 <= k < order@.len() ==> (#[trigger] order@[k]) < i,
                forall|k: int|
                    p <= k < sorted.len() ==> text_lt(
                        views[i as int].path,
                        (#[trigger] sorted[k]).path,
                    ),
            decreases p,
        {
            assert(sorted[p - 1] == views[order@[p - 1] as int]);
            p -= 1;
        }
        proof {
            if p > 0 {
                assert(sorted[p - 1] == views[order@[p - 1] as int]);
            }
            lemma_inserted_at(sorted, views[i as int], p as int);
            assert(views.take(i + 1).drop_last() =~= views.take(i as int));
            assert(views.take(i + 1).last() == views[i as int]);
        }
        order.insert(p, i);
        assert(picked(views, order@) =~= sorted.insert(p as int, views[i as int]));
        i += 1;
    }
    assert(views.take(views.len() as int) =~= views);
    order
}

impl CanonManifest {
    /// The manifest of `files` for the document `spec`, made at
    /// `created_at`: it counts the files, adds up their sizes and takes
    /// their canonical hash.
    pub fn new(spec: ManifestSpecification, files: Vec<ManifestFile>, created_at: Timestamp) -> (m:
        CanonManifest)
        requires
            total_size_of(files.deep_view()) <= u64::MAX,
        ensures
            m@ == manifest_of(spec@, files.deep_view(), created_at),
    {
        let ghost views = files.deep_view();
        let mut total_size: u64 = 0;
        let mut i: usize = 0;
        assert(views.take(0) =~= Seq::<ManifestFileView>::empty());
        while i < files.len()
            invariant
                i <= files@.len(),
                views == files.deep_view(),
                total_size == total_size_of(views.take(i as int)),
                total_size_of(views) <= u64::MAX,
            decreases files@.len() - i,
        {
            proof {
                assert(views.take(i + 1).drop_last() =~= views.take(i as int));
                assert(views.take(i + 1).last() == files@[i as int]@);
                lemma_total_size_prefix(views, i + 1);
            }
            total_size = total_size + files[i].size;
            i += 1;
        }
        assert(views.take(views.len() as int) =~= views);
        let file_count = files.len();
        let slice = files.as_slice();
        assert(slice.deep_view() =~= views);
        let canonical_hash = CanonManifest::compute_canonical_hash(slice);
        CanonManifest {
            canon: String::from_str("1.0"),
            manifest_version: String::from_str("1.0"),
            created_at,
            specification: spec,
            files,
            directories: None,
            total_size,
            file_count,
            canonical_hash,
        }
    }

    /// The hash that stands for all of `files`: `sha256:` and, in
    /// hexadecimal, the SHA-256 digest of the files' hashes, taken in the
    /// order of their paths.
    pub fn compute_canonical_hash(files: &[ManifestFile]) -> (hash: String)
        ensures
            hash@ == canonical_hash_of(files.deep_view()),
    {
        let order = path_order(files);
        let ghost views = files.deep_view();
        let ghost sorted = picked(views, order@);
        let mut data: Vec<u8> = Vec::new();
        let mut k: usize = 0;
        assert(sorted.take(0) =~= Seq::<ManifestFileView>::empty());
        while k < order.len()
            invariant
                k <= order@.len(),
                views == files.deep_view(),
                sorted == picked(views, order@),
                forall|j: int| 0 <= j < order@.len() ==> (#[trigger] order@[j]) < files@.len(),
                data@ == hash_bytes(sorted.take(k as int)),
            decreases order@.len() - k,
        {
            let bytes = files[order[k]].hash.as_str().as_bytes();
            let ghost before = data@;
            let mut j: usize = 0;
            while j < bytes.len()
                invariant
                    j <= bytes@.len(),
                    data@ == before + bytes@.take(j as int),
                decreases bytes@.len() - j,
            {
                data.push(bytes[j]);
                assert(bytes@.take(j + 1) =~= bytes@.take(j as int).push(bytes@[j as int]));
                assert(before + bytes@.take(j + 1) =~= (before + bytes@.take(j as int)).push(
                    bytes@[j as int],
                ));
                j += 1;
            }
            proof {
                assert(bytes@.take(bytes@.len() as int) =~= bytes@);
                assert(sorted.take(k + 1).drop_last() =~= sorted.take(k as int));
                assert(sorted.take(k + 1).last() == views[order@[k as int] as int]);
                assert(views[order@[k as int] as int] == files@[order@[k as int] as int]@);
            }
            k += 1;
        }
        assert(sorted.take(sorted.len() as int) =~= sorted);
        let digest = digest_sha256(&data);
        canonical_hash_text(&digest)
    }
}

} // verus!
