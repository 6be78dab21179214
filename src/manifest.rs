//! Checksum manifests: one `<digest> <path>` line per hashed file, and the
//! multiset of digests that a manifest lists.
//!
//! Reading a manifest, each line (ended by `\n` or `\r\n`) is split at its
//! first ASCII whitespace byte: the part before it is the digest. A line with
//! no whitespace lists nothing.
//!
//! Two manifests match when they list the same digests the same number of
//! times. Paths take no part in the comparison: a file that moved within the
//! tree still matches, and two files that swapped contents are not told apart.

use vstd::prelude::*;

use vstd::multiset::Multiset;

use crate::error::ArchiveError;

verus! {

broadcast use vstd::seq_lib::group_to_multiset_ensures;

/// The space byte that the renderer writes after each digest.
pub const SPACE: u8 = 32;

/// The newline byte that ends a manifest line.
pub const NEWLINE: u8 = 10;

/// A carriage return: before a newline it belongs to the line ending.
pub const CARRIAGE_RETURN: u8 = 13;

/// ASCII whitespace: space, tab, line feed, form feed, carriage return.
pub open spec fn is_ascii_space(b: u8) -> bool {
    b == 32 || b == 9 || b == 10 || b == 12 || b == 13
}

fn is_space_byte(b: u8) -> (r: bool)
    ensures
        r == is_ascii_space(b),
{
    b == 32 || b == 9 || b == 10 || b == 12 || b == 13
}

/// A hashed file: its digest and its path, as bytes.
pub struct FileDigest {
    pub digest: Vec<u8>,
    pub path: Vec<u8>,
}

impl View for FileDigest {
    type V = (Seq<u8>, Seq<u8>);

    open spec fn view(&self) -> (Seq<u8>, Seq<u8>) {
        (self.digest@, self.path@)
    }
}

/// What hashing one file gave: a digest, or `None` where the file could not be read.
pub struct HashOutcome {
    pub digest: Option<Vec<u8>>,
    pub path: Vec<u8>,
}

impl View for HashOutcome {
    type V = (Option<Seq<u8>>, Seq<u8>);

    open spec fn view(&self) -> (Option<Seq<u8>>, Seq<u8>) {
        (
            match self.digest {
                Some(d) => Some(d@),
                None => None,
            },
            self.path@,
        )
    }
}

/// The views of a sequence of byte vectors.
pub open spec fn byte_views(v: Seq<Vec<u8>>) -> Seq<Seq<u8>> {
    Seq::new(v.len(), |i: int| v[i]@)
}

/// The views of a sequence of hash outcomes.
pub open spec fn outcome_views(v: Seq<HashOutcome>) -> Seq<(Option<Seq<u8>>, Seq<u8>)> {
    Seq::new(v.len(), |i: int| v[i]@)
}

/// The manifest line of one file: `<digest> <path>` and a newline.
pub open spec fn line_of(e: (Seq<u8>, Seq<u8>)) -> Seq<u8> {
    e.0 + seq![SPACE] + e.1 + seq![NEWLINE]
}

/// The manifest text of a sequence of (digest, path) entries, one line each, in order.
pub open spec fn manifest_text(entries: Seq<(Seq<u8>, Seq<u8>)>) -> Seq<u8>
    decreases entries.len(),
{
    if entries.len() == 0 {
        Seq::empty()
    } else {
        manifest_text(entries.drop_last()) + line_of(entries.last())
    }
}

/// The (digest, path) entries of the outcomes that have a digest, in order.
pub open spec fn kept(outcomes: Seq<(Option<Seq<u8>>, Seq<u8>)>) -> Seq<(Seq<u8>, Seq<u8>)>
    decreases outcomes.len(),
{
    if outcomes.len() == 0 {
        Seq::empty()
    } else {
        let o = outcomes.last();
        kept(outcomes.drop_last()) + match o.0 {
            Some(d) => seq![(d, o.1)],
            None => Seq::empty(),
        }
    }
}

/// The index of the first `b` in `s`, or the length of `s` where there is none.
pub open spec fn find_byte(s: Seq<u8>, b: u8) -> nat
    decreases s.len(),
{
    if s.len() == 0 {
        0
    } else if s[0] == b {
        0
    } else {
        1 + find_byte(s.drop_first(), b)
    }
}

/// The index of the first ASCII whitespace byte in `s`, or the length of `s`
/// where there is none.
pub open spec fn find_space(s: Seq<u8>) -> nat
    decreases s.len(),
{
    if s.len() == 0 {
        0
    } else if is_ascii_space(s[0]) {
        0
    } else {
        1 + find_space(s.drop_first())
    }
}

/// The line that starts `text` and whose end is at `k`, without a carriage
/// return that stands just before the newline at `k`.
pub open spec fn line_body(text: Seq<u8>, k: nat) -> Seq<u8> {
    if 0 < k < text.len() && text[k - 1] == CARRIAGE_RETURN {
        text.subrange(0, k - 1)
    } else {
        text.subrange(0, k as int)
    }
}

/// What one manifest line contributes: the bytes before its first ASCII
/// whitespace byte, or nothing where the line holds no whitespace.
pub open spec fn line_digest(line: Seq<u8>) -> Seq<Seq<u8>> {
    let k = find_space(line);
    if k < line.len() {
        seq![line.subrange(0, k as int)]
    } else {
        Seq::empty()
    }
}

/// The digests that a manifest text lists, line by line. The last line needs
/// no newline; an empty text lists nothing.
pub open spec fn listed_digests(text: Seq<u8>) -> Seq<Seq<u8>>
    decreases text.len(),
{
    if text.len() == 0 {
        Seq::empty()
    } else {
        let k = find_byte(text, NEWLINE);
        line_digest(line_body(text, k)) + if k < text.len() {
            listed_digests(text.subrange(k as int + 1, text.len() as int))
        } else {
            Seq::empty()
        }
    }
}

/// Whether two manifest texts list the same digests, each as many times.
pub open spec fn manifests_match(a: Seq<u8>, b: Seq<u8>) -> bool {
    listed_digests(a).to_multiset() == listed_digests(b).to_multiset()
}

proof fn lemma_find_space_step(s: Seq<u8>, i: int)
    requires
        0 <= i < s.len(),
        !is_ascii_space(s[i]),
    ensures
        find_space(s.subrange(i, s.len() as int)) == 1 + find_space(
            s.subrange(i + 1, s.len() as int),
        ),
{
    assert(s.subrange(i, s.len() as int).drop_first() =~= s.subrange(i + 1, s.len() as int));
}

proof fn lemma_find_step(s: Seq<u8>, i: int, b: u8)
    requires
        0 <= i < s.len(),
        s[i] != b,
    ensures
        find_byte(s.subrange(i, s.len() as int), b) == 1 + find_byte(
            s.subrange(i + 1, s.len() as int),
            b,
        ),
{
    assert(s.subrange(i, s.len() as int).drop_first() =~= s.subrange(i + 1, s.len() as int));
}

fn append_bytes(out: &mut Vec<u8>, src: &[u8])
    ensures
        final(out)@ == old(out)@ + src@,
{
    let mut i: usize = 0;
    while i < src.len()
        invariant
            i <= src@.len(),
            out@ == old(out)@ + src@.subrange(0, i as int),
        decreases src@.len() - i,
    {
        out.push(src[i]);
        i = i + 1;
        assert(out@ =~= old(out)@ + src@.subrange(0, i as int));
    }
    assert(src@.subrange(0, src@.len() as int) =~= src@);
}

fn copy_range(src: &[u8], lo: usize, hi: usize) -> (r: Vec<u8>)
    requires
        lo <= hi <= src@.len(),
    ensures
        r@ == src@.subrange(lo as int, hi as int),
{
    let mut out: Vec<u8> = Vec::new();
    let mut i: usize = lo;
    while i < hi
        invariant
            lo <= i <= hi,
            hi <= src@.len(),
            out@ == src@.subrange(lo as int, i as int),
        decreases hi - i,
    {
        out.push(src[i]);
        i = i + 1;
        assert(out@ =~= src@.subrange(lo as int, i as int));
    }
    out
}

/// Renders the manifest of the files that were hashed: one `<digest> <path>`
/// line for each outcome with a digest, in the order given. Outcomes without a
/// digest (files that could not be read) are left out.
pub fn render_manifest(outcomes: &Vec<HashOutcome>) -> (r: Vec<u8>)
    ensures
        r@ == manifest_text(kept(outcome_views(outcomes@))),
{
    let ghost ov = outcome_views(outcomes@);
    let mut out: Vec<u8> = Vec::new();
    let mut i: usize = 0;
    while i < outcomes.len()
        invariant
            i <= outcomes@.len(),
            ov == outcome_views(outcomes@),
            out@ == manifest_text(kept(ov.subrange(0, i as int))),
        decreases outcomes@.len() - i,
    {
        let o = &outcomes[i];
        let ghost before = kept(ov.subrange(0, i as int));
        proof {
            assert(ov.subrange(0, i as int + 1).drop_last() =~= ov.subrange(0, i as int));
        }
        match &o.digest {
            Some(d) => {
                append_bytes(&mut out, d.as_slice());
                out.push(SPACE);
                append_bytes(&mut out, o.path.as_slice());
                out.push(NEWLINE);
                proof {
                    let e = (d@, o.path@);
                    let after = kept(ov.subrange(0, i as int + 1));
                    assert(after =~= before.push(e));
                    assert(after.drop_last() =~= before);
                    assert(out@ =~= manifest_text(before) + line_of(e));
                }
            },
            None => {
                proof {
                    assert(kept(ov.subrange(0, i as int + 1)) =~= before);
                }
            },
        }
        i = i + 1;
    }
    assert(ov.subrange(0, outcomes@.len() as int) =~= ov);
    out
}

/// Parses a manifest text into the digests it lists, in order: for each line,
/// the bytes before its first ASCII whitespace byte. A line without whitespace
/// lists nothing and is not an error.
pub fn parse_checksums(content: &[u8]) -> (r: Vec<Vec<u8>>)
    ensures
        byte_views(r@) == listed_digests(content@),
{
    let ghost s = content@;
    let n = content.len();
    let mut out: Vec<Vec<u8>> = Vec::new();
    let mut pos: usize = 0;
    proof {
        assert(s.subrange(0, n as int) =~= s);
        assert(byte_views(out@) + listed_digests(s) =~= listed_digests(s));
    }
    while pos < n
        invariant
            n == s.len(),
            s == content@,
            pos <= n,
            byte_views(out@) + listed_digests(s.subrange(pos as int, n as int)) == listed_digests(s),
        decreases n - pos,
    {
        let mut k: usize = pos;
        while k < n && content[k] != NEWLINE
            invariant
                n == s.len(),
                s == content@,
                pos <= k <= n,
                find_byte(s.subrange(pos as int, n as int), NEWLINE) == (k - pos) + find_byte(
                    s.subrange(k as int, n as int),
                    NEWLINE,
                ),
            decreases n - k,
        {
            proof {
                lemma_find_step(s, k as int, NEWLINE);
            }
            k = k + 1;
        }
        let end: usize = if k < n && k > pos && content[k - 1] == CARRIAGE_RETURN {
            k - 1
        } else {
            k
        };
        let mut j: usize = pos;
        let ghost line = s.subrange(pos as int, end as int);
        let ghost rest = s.subrange(pos as int, n as int);
        proof {
            assert(line.subrange(0, line.len() as int) =~= line);
            assert(find_byte(rest, NEWLINE) == k - pos);
            assert(line_body(rest, (k - pos) as nat) =~= line);
        }
        while j < end && !is_space_byte(content[j])
            invariant
                n == s.len(),
                s == content@,
                pos <= j <= end <= k <= n,
                line == s.subrange(pos as int, end as int),
                find_space(line) == (j - pos) + find_space(line.subrange(j - pos, line.len() as int)),
            decreases end - j,
        {
            proof {
                lemma_find_space_step(line, j - pos);
            }
            j = j + 1;
        }
        let ghost before = byte_views(out@);
        proof {
            assert(find_space(line) == j - pos);
        }
        if j < end {
            let d = copy_range(content, pos, j);
            out.push(d);
            proof {
                assert(line.subrange(0, j - pos) =~= d@);
                assert(byte_views(out@) =~= before + line_digest(line));
            }
        } else {
            proof {
                assert(byte_views(out@) =~= before + line_digest(line));
            }
        }
        if k < n {
            proof {
                assert(rest.subrange(k - pos + 1, rest.len() as int) =~= s.subrange(
                    k as int + 1,
                    n as int,
                ));
                assert(byte_views(out@) + listed_digests(s.subrange(k as int + 1, n as int))
                    =~= before + listed_digests(rest));
            }
            pos = k + 1;
        } else {
            proof {
                assert(s.subrange(n as int, n as int) =~= Seq::<u8>::empty());
                assert(byte_views(out@) + listed_digests(s.subrange(n as int, n as int))
                    =~= before + listed_digests(rest));
            }
            pos = n;
        }
    }
    proof {
        assert(s.subrange(n as int, n as int) =~= Seq::<u8>::empty());
        assert(byte_views(out@) =~= byte_views(out@) + listed_digests(s.subrange(pos as int, n as int)));
    }
    out
}

fn bytes_equal(a: &[u8], b: &[u8]) -> (r: bool)
    ensures
        r == (a@ == b@),
{
    if a.len() != b.len() {
        return false;
    }
    let mut i: usize = 0;
    while i < a.len()
        invariant
            i <= a@.len(),
            a@.len() == b@.len(),
            forall|k: int| 0 <= k < i ==> a@[k] == b@[k],
        decreases a@.len() - i,
    {
        if a[i] != b[i] {
            return false;
        }
        i = i + 1;
    }
    assert(a@ =~= b@);
    true
}

/// The digests that a manifest lists, compared as a multiset: paths and line
/// order play no part.
pub struct ManifestIndex {
    digests: Vec<Vec<u8>>,
}

impl View for ManifestIndex {
    type V = Multiset<Seq<u8>>;

    open spec fn view(&self) -> Multiset<Seq<u8>> {
        self.digest_seq().to_multiset()
    }
}

impl ManifestIndex {
    /// The digests in the order their lines stand in the manifest.
    pub closed spec fn digest_seq(&self) -> Seq<Seq<u8>> {
        byte_views(self.digests@)
    }

    /// Parses a manifest text; lines without ASCII whitespace contribute nothing.
    pub fn parse(content: &[u8]) -> (r: ManifestIndex)
        ensures
            r.digest_seq() == listed_digests(content@),
            r@ == listed_digests(content@).to_multiset(),
    {
        ManifestIndex { digests: parse_checksums(content) }
    }

    /// The number of digests listed, repeats included.
    pub fn len(&self) -> (r: usize)
        ensures
            r == self@.len(),
            r == self.digest_seq().len(),
    {
        self.digests.len()
    }

    /// How many times `digest` is listed.
    pub fn count(&self, digest: &[u8]) -> (r: usize)
        ensures
            r == self@.count(digest@),
    {
        let ghost v = byte_views(self.digests@);
        let mut c: usize = 0;
        let mut i: usize = 0;
        while i < self.digests.len()
            invariant
                i <= self.digests@.len(),
                v == byte_views(self.digests@),
                c <= i,
                c == v.subrange(0, i as int).to_multiset().count(digest@),
            decreases self.digests@.len() - i,
        {
            proof {
                assert(v.subrange(0, i as int + 1) =~= v.subrange(0, i as int).push(v[i as int]));
            }
            if bytes_equal(self.digests[i].as_slice(), digest) {
                c = c + 1;
            }
            i = i + 1;
        }
        assert(v.subrange(0, i as int) =~= v);
        c
    }

    /// Whether both indexes list the same digests, each as many times.
    pub fn equals(&self, other: &ManifestIndex) -> (r: bool)
        ensures
            r == (self@ == other@),
    {
        let ghost a = self.digest_seq();
        let ghost b = other.digest_seq();
        let mut i: usize = 0;
        while i < self.digests.len()
            invariant
                i <= self.digests@.len(),
                a == self.digest_seq(),
                forall|k: int| 0 <= k < i ==> self@.count(#[trigger] a[k]) == other@.count(a[k]),
            decreases self.digests@.len() - i,
        {
            let d = self.digests[i].as_slice();
            if self.count(d) != other.count(d) {
                assert(self@.count(a[i as int]) != other@.count(a[i as int]));
                return false;
            }
            i = i + 1;
        }
        let mut j: usize = 0;
        while j < other.digests.len()
            invariant
                j <= other.digests@.len(),
                b == other.digest_seq(),
                forall|k: int| 0 <= k < j ==> self@.count(#[trigger] b[k]) == other@.count(b[k]),
            decreases other.digests@.len() - j,
        {
            let d = other.digests[j].as_slice();
            if self.count(d) != other.count(d) {
                assert(self@.count(b[j as int]) != other@.count(b[j as int]));
                return false;
            }
            j = j + 1;
        }
        proof {
            assert forall|x: Seq<u8>| self@.count(x) == other@.count(x) by {
                if self@.count(x) > 0 {
                    assert(a.contains(x));
                    let k = choose|k: int| 0 <= k < a.len() && a[k] == x;
                    assert(self@.count(a[k]) == other@.count(a[k]));
                } else if other@.count(x) > 0 {
                    assert(b.contains(x));
                    let k = choose|k: int| 0 <= k < b.len() && b[k] == x;
                    assert(self@.count(b[k]) == other@.count(b[k]));
                }
            }
            assert(self@ =~= other@);
        }
        true
    }
}

/// Whether two manifest texts list the same digests, each as many times.
pub fn compare_manifests(source: &[u8], unpacked: &[u8]) -> (r: bool)
    ensures
        r == manifests_match(source@, unpacked@),
{
    let a = ManifestIndex::parse(source);
    let b = ManifestIndex::parse(unpacked);
    a.equals(&b)
}

/// The acceptance gate of an archive: `Ok` exactly when the manifest of the
/// unpacked copy matches the manifest of the source tree, else
/// `ChecksumMismatch`.
pub fn verify_manifests(source: &[u8], unpacked: &[u8]) -> (r: Result<(), ArchiveError>)
    ensures
        r is Ok <==> manifests_match(source@, unpacked@),
        r is Err ==> r == Err::<(), ArchiveError>(ArchiveError::ChecksumMismatch),
{
    if compare_manifests(source, unpacked) {
        Ok(())
    } else {
        Err(ArchiveError::ChecksumMismatch)
    }
}

/// Whether a (digest, path) entry renders to a line that parses back to its
/// digest: the digest holds no ASCII whitespace, the path no newline.
pub open spec fn entry_well_formed(e: (Seq<u8>, Seq<u8>)) -> bool {
    &&& forall|k: int| 0 <= k < e.0.len() ==> !is_ascii_space(#[trigger] e.0[k])
    &&& forall|k: int| 0 <= k < e.1.len() ==> #[trigger] e.1[k] != NEWLINE
}

proof fn lemma_find_concat(a: Seq<u8>, b: Seq<u8>, x: u8)
    requires
        forall|k: int| 0 <= k < a.len() ==> a[k] != x,
    ensures
        find_byte(a + b, x) == a.len() + find_byte(b, x),
    decreases a.len(),
{
    if a.len() > 0 {
        assert((a + b).drop_first() =~= a.drop_first() + b);
        lemma_find_concat(a.drop_first(), b, x);
    } else {
        assert(a + b =~= b);
    }
}

proof fn lemma_find_space_concat(a: Seq<u8>, b: Seq<u8>)
    requires
        forall|k: int| 0 <= k < a.len() ==> !is_ascii_space(#[trigger] a[k]),
    ensures
        find_space(a + b) == a.len() + find_space(b),
    decreases a.len(),
{
    if a.len() > 0 {
        assert((a + b).drop_first() =~= a.drop_first() + b);
        lemma_find_space_concat(a.drop_first(), b);
    } else {
        assert(a + b =~= b);
    }
}

proof fn lemma_listed_line(e: (Seq<u8>, Seq<u8>), t: Seq<u8>)
    requires
        entry_well_formed(e),
    ensures
        listed_digests(line_of(e) + t) == seq![e.0] + listed_digests(t),
{
    let head = e.0 + seq![SPACE] + e.1;
    let text = line_of(e) + t;
    assert(text =~= head + (seq![NEWLINE] + t));
    assert forall|k: int| 0 <= k < head.len() implies head[k] != NEWLINE by {
        if k > e.0.len() {
            assert(head[k] == e.1[k - e.0.len() - 1]);
        }
    }
    lemma_find_concat(head, seq![NEWLINE] + t, NEWLINE);
    let k = find_byte(text, NEWLINE);
    assert(k == head.len());
    let body = line_body(text, k);
    let kept_path = body.subrange(e.0.len() as int + 1, body.len() as int);
    assert(body.len() >= e.0.len() + 1);
    assert(body =~= e.0 + (seq![SPACE] + kept_path));
    lemma_find_space_concat(e.0, seq![SPACE] + kept_path);
    assert(body.subrange(0, e.0.len() as int) =~= e.0);
    assert(text.subrange(head.len() as int + 1, text.len() as int) =~= t);
}

proof fn lemma_text_front(entries: Seq<(Seq<u8>, Seq<u8>)>)
    requires
        entries.len() > 0,
    ensures
        manifest_text(entries) == line_of(entries[0]) + manifest_text(entries.drop_first()),
    decreases entries.len(),
{
    if entries.len() == 1 {
        assert(entries.drop_last() =~= Seq::<(Seq<u8>, Seq<u8>)>::empty());
        assert(entries.drop_first() =~= Seq::<(Seq<u8>, Seq<u8>)>::empty());
        assert(manifest_text(entries) =~= line_of(entries[0]) + manifest_text(entries.drop_first()));
    } else {
        lemma_text_front(entries.drop_last());
        assert(entries.drop_last().drop_first() =~= entries.drop_first().drop_last());
        assert(entries.drop_first().last() == entries.last());
        assert(manifest_text(entries) =~= line_of(entries[0]) + manifest_text(entries.drop_first()));
    }
}

/// Parsing a rendered manifest gives back the digests of its entries, in
/// order, when every entry is well formed.
pub proof fn lemma_parse_render(entries: Seq<(Seq<u8>, Seq<u8>)>)
    requires
        forall|i: int| 0 <= i < entries.len() ==> entry_well_formed(#[trigger] entries[i]),
    ensures
        listed_digests(manifest_text(entries)) == entries.map_values(|e: (Seq<u8>, Seq<u8>)| e.0),
    decreases entries.len(),
{
    if entries.len() == 0 {
        assert(entries.map_values(|e: (Seq<u8>, Seq<u8>)| e.0) =~= Seq::<Seq<u8>>::empty());
    } else {
        lemma_text_front(entries);
        lemma_parse_render(entries.drop_first());
        assert(entry_well_formed(entries[0]));
        lemma_listed_line(entries[0], manifest_text(entries.drop_first()));
        assert(entries.map_values(|e: (Seq<u8>, Seq<u8>)| e.0) =~= seq![entries[0].0]
            + entries.drop_first().map_values(|e: (Seq<u8>, Seq<u8>)| e.0));
    }
}

/// A line without ASCII whitespace contributes nothing: placing one (newline-ended)
/// before a manifest text leaves the listed digests unchanged.
pub proof fn lemma_malformed_line_skipped(line: Seq<u8>, rest: Seq<u8>)
    requires
        forall|k: int| 0 <= k < line.len() ==> !is_ascii_space(#[trigger] line[k]),
    ensures
        listed_digests(line + seq![NEWLINE] + rest) == listed_digests(rest),
{
    let text = line + seq![NEWLINE] + rest;
    assert(text =~= line + (seq![NEWLINE] + rest));
    lemma_find_concat(line, seq![NEWLINE] + rest, NEWLINE);
    assert(text.subrange(0, line.len() as int) =~= line);
    assert(line_body(text, line.len()) =~= line);
    assert(line =~= line + Seq::<u8>::empty());
    lemma_find_space_concat(line, Seq::<u8>::empty());
    assert(text.subrange(line.len() as int + 1, text.len() as int) =~= rest);
    assert(listed_digests(text) =~= listed_digests(rest));
}

/// An empty manifest lists no digests, and matches only a manifest that lists none.
pub proof fn lemma_empty_manifest(other: Seq<u8>)
    ensures
        listed_digests(manifest_text(Seq::empty())) == Seq::<Seq<u8>>::empty(),
        manifests_match(manifest_text(Seq::empty()), other) <==> listed_digests(other).len() == 0,
{
    let e = Seq::<Seq<u8>>::empty();
    assert(listed_digests(manifest_text(Seq::empty())) =~= e);
    assert(e.to_multiset().len() == 0);
    if listed_digests(other).len() == 0 {
        assert(listed_digests(other) =~= e);
    }
}

} // verus!
