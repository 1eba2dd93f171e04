//! The binary package index: the compact list of packages, releases and
//! payload locations that clients download.
//!
//! Layout:
//!
//! ```text
//! index    = "PIDX" count package*
//! package  = text(id) count release*
//! release  = text(version) channel count target*
//! channel  = 0 | 1 text(channel)
//! target   = text(platform) text(url)
//! text     = count bytes           (UTF-8)
//! count    = seven bits to a byte, the lowest first; the eighth bit is set
//!            in every byte but the last
//! ```

use vstd::prelude::*;
use vstd::string::StringSliceAdditionalSpecFns;
use vstd::utf8::{decode_utf8, encode_utf8, valid_utf8};

use crate::package::{
    optional_text, package_views, PackageRecord, PackageView, Release, ReleaseView, Target,
    TargetView,
};

verus! {

/// A release as the index lists it.
pub struct IndexRelease {
    pub version: Seq<char>,
    pub channel: Option<Seq<char>>,
    pub targets: Seq<TargetView>,
}

/// A package as the index lists it.
pub struct IndexEntry {
    pub id: Seq<char>,
    pub releases: Seq<IndexRelease>,
}

/// What the index keeps of a release.
pub open spec fn release_entry(r: ReleaseView) -> IndexRelease {
    IndexRelease { version: r.version.text, channel: r.channel, targets: r.targets }
}

/// What the index keeps of a package.
pub open spec fn package_entry(p: PackageView) -> IndexEntry {
    IndexEntry { id: p.id, releases: p.releases.map_values(|r: ReleaseView| release_entry(r)) }
}

/// What the index keeps of a list of packages.
pub open spec fn index_entries(packages: Seq<PackageView>) -> Seq<IndexEntry> {
    packages.map_values(|p: PackageView| package_entry(p))
}

/// The four bytes every index starts with.
pub open spec fn magic() -> Seq<u8> {
    seq![0x50u8, 0x49u8, 0x44u8, 0x58u8]
}

/// A count: seven bits to a byte, the lowest seven first, with the eighth bit
/// set in every byte but the last.
pub open spec fn len_bytes(n: nat) -> Seq<u8>
    decreases n,
{
    if n < 128 {
        seq![n as u8]
    } else {
        seq![(128 + n % 128) as u8] + len_bytes(n / 128)
    }
}

/// A text: the length of its UTF-8 encoding, then the encoding.
pub open spec fn text_bytes(s: Seq<char>) -> Seq<u8> {
    len_bytes(encode_utf8(s).len()) + encode_utf8(s)
}

/// A channel: a zero for none, or a one and the channel's name.
pub open spec fn channel_bytes(c: Option<Seq<char>>) -> Seq<u8> {
    match c {
        None => seq![0u8],
        Some(s) => seq![1u8] + text_bytes(s),
    }
}

/// A target: its platform, then the URL of its payload.
pub open spec fn target_bytes(t: TargetView) -> Seq<u8> {
    text_bytes(t.platform) + text_bytes(t.url)
}

/// The encodings of `items` in a row.
pub open spec fn items_bytes<T>(items: Seq<T>, item_bytes: spec_fn(T) -> Seq<u8>) -> Seq<u8>
    decreases items.len(),
{
    if items.len() == 0 {
        Seq::empty()
    } else {
        items_bytes(items.drop_last(), item_bytes) + item_bytes(items.last())
    }
}

/// A list: the number of its items, then the items.
pub open spec fn list_bytes<T>(items: Seq<T>, item_bytes: spec_fn(T) -> Seq<u8>) -> Seq<u8> {
    len_bytes(items.len()) + items_bytes(items, item_bytes)
}

/// A release: its version, its channel, then the list of its targets.
pub open spec fn release_bytes(r: IndexRelease) -> Seq<u8> {
    text_bytes(r.version) + channel_bytes(r.channel) + list_bytes(
        r.targets,
        |t: TargetView| target_bytes(t),
    )
}

/// A package: its identifier, then the list of its releases.
pub open spec fn entry_bytes(e: IndexEntry) -> Seq<u8> {
    text_bytes(e.id) + list_bytes(e.releases, |r: IndexRelease| release_bytes(r))
}

/// The index that lists `entries`.
pub open spec fn index_bytes(entries: Seq<IndexEntry>) -> Seq<u8> {
    magic() + list_bytes(entries, |e: IndexEntry| entry_bytes(e))
}

/// The index of a list of packages.
pub open spec fn catalog_bytes(packages: Seq<PackageView>) -> Seq<u8> {
    index_bytes(index_entries(packages))
}

/// Reads a count from the start of `b`: the count and the bytes after it.
pub open spec fn read_len(b: Seq<u8>) -> Option<(nat, Seq<u8>)>
    decreases b.len(),
{
    if b.len() == 0 {
        None
    } else if b[0] < 128 {
        Some((b[0] as nat, b.skip(1)))
    } else {
        match read_len(b.skip(1)) {
            Some((high, rest)) => Some(((b[0] - 128 + 128 * high) as nat, rest)),
            None => None,
        }
    }
}

/// Reads a text from the start of `b`: the text and the bytes after it.
pub open spec fn read_text(b: Seq<u8>) -> Option<(Seq<char>, Seq<u8>)> {
    match read_len(b) {
        Some((n, rest)) => if n <= rest.len() && valid_utf8(rest.take(n as int)) {
            Some((decode_utf8(rest.take(n as int)), rest.skip(n as int)))
        } else {
            None
        },
        None => None,
    }
}

/// Reads a channel from the start of `b`.
pub open spec fn read_channel(b: Seq<u8>) -> Option<(Option<Seq<char>>, Seq<u8>)> {
    if b.len() == 0 {
        None
    } else if b[0] == 0 {
        Some((None, b.skip(1)))
    } else if b[0] == 1 {
        match read_text(b.skip(1)) {
            Some((s, rest)) => Some((Some(s), rest)),
            None => None,
        }
    } else {
        None
    }
}

/// Reads a target from the start of `b`.
pub open spec fn read_target(b: Seq<u8>) -> Option<(TargetView, Seq<u8>)> {
    match read_text(b) {
        Some((platform, rest)) => match read_text(rest) {
            Some((url, rest)) => Some((TargetView { platform, url }, rest)),
            None => None,
        },
        None => None,
    }
}

/// Reads `n` items in a row from the start of `b`.
pub open spec fn read_items<T>(
    n: nat,
    b: Seq<u8>,
    read_item: spec_fn(Seq<u8>) -> Option<(T, Seq<u8>)>,
) -> Option<(Seq<T>, Seq<u8>)>
    decreases n,
{
    if n == 0 {
        Some((Seq::empty(), b))
    } else {
        match read_item(b) {
            Some((item, rest)) => match read_items((n - 1) as nat, rest, read_item) {
                Some((items, rest)) => Some((seq![item] + items, rest)),
                None => None,
            },
            None => None,
        }
    }
}

/// Reads a list from the start of `b`: its length, then that many items.
pub open spec fn read_list<T>(
    b: Seq<u8>,
    read_item: spec_fn(Seq<u8>) -> Option<(T, Seq<u8>)>,
) -> Option<(Seq<T>, Seq<u8>)> {
    match read_len(b) {
        Some((n, rest)) => read_items(n, rest, read_item),
        None => None,
    }
}

/// Reads a release from the start of `b`.
pub open spec fn read_release(b: Seq<u8>) -> Option<(IndexRelease, Seq<u8>)> {
    match read_text(b) {
        Some((version, rest)) => match read_channel(rest) {
            Some((channel, rest)) => match read_list(rest, |b: Seq<u8>| read_target(b)) {
                Some((targets, rest)) => Some((IndexRelease { version, channel, targets }, rest)),
                None => None,
            },
            None => None,
        },
        None => None,
    }
}

/// Reads a package from the start of `b`.
pub open spec fn read_entry(b: Seq<u8>) -> Option<(IndexEntry, Seq<u8>)> {
    match read_text(b) {
        Some((id, rest)) => match read_list(rest, |b: Seq<u8>| read_release(b)) {
            Some((releases, rest)) => Some((IndexEntry { id, releases }, rest)),
            None => None,
        },
        None => None,
    }
}

/// What an index lists: `None` unless `b` is an index and nothing more.
pub open spec fn read_index(b: Seq<u8>) -> Option<Seq<IndexEntry>> {
    if b.len() >= 4 && b.take(4) == magic() {
        match read_list(b.skip(4), |b: Seq<u8>| read_entry(b)) {
            Some((entries, rest)) => if rest.len() == 0 {
                Some(entries)
            } else {
                None
            },
            None => None,
        }
    } else {
        None
    }
}

proof fn lemma_read_len(n: nat, rest: Seq<u8>)
    ensures
        read_len(len_bytes(n) + rest) == Some((n, rest)),
    decreases n,
{
    let b = len_bytes(n) + rest;
    if n < 128 {
        assert(b[0] == n);
        assert(b.skip(1) =~= rest);
    } else {
        let low = (128 + n % 128) as u8;
        assert(b[0] == low);
        assert(low == 128 + n % 128);
        assert(b.skip(1) =~= len_bytes(n / 128) + rest);
        lemma_read_len(n / 128, rest);
        assert(n % 128 + 128 * (n / 128) == n);
    }
}

proof fn lemma_read_text(s: Seq<char>, rest: Seq<u8>)
    ensures
        read_text(text_bytes(s) + rest) == Some((s, rest)),
{
    let body = encode_utf8(s);
    vstd::utf8::encode_utf8_valid_utf8(s);
    vstd::utf8::encode_utf8_decode_utf8(s);
    assert(text_bytes(s) + rest =~= len_bytes(body.len()) + (body + rest));
    lemma_read_len(body.len(), body + rest);
    assert((body + rest).take(body.len() as int) =~= body);
    assert((body + rest).skip(body.len() as int) =~= rest);
}

proof fn lemma_read_channel(c: Option<Seq<char>>, rest: Seq<u8>)
    ensures
        read_channel(channel_bytes(c) + rest) == Some((c, rest)),
{
    let b = channel_bytes(c) + rest;
    match c {
        None => {
            assert(b.skip(1) =~= rest);
        },
        Some(s) => {
            assert(b.skip(1) =~= text_bytes(s) + rest);
            lemma_read_text(s, rest);
        },
    }
}

proof fn lemma_read_target(t: TargetView, rest: Seq<u8>)
    ensures
        read_target(target_bytes(t) + rest) == Some((t, rest)),
{
    assert(target_bytes(t) + rest =~= text_bytes(t.platform) + (text_bytes(t.url) + rest));
    lemma_read_text(t.platform, text_bytes(t.url) + rest);
    lemma_read_text(t.url, rest);
}

proof fn lemma_items_bytes_first<T>(items: Seq<T>, item_bytes: spec_fn(T) -> Seq<u8>)
    requires
        items.len() > 0,
    ensures
        items_bytes(items, item_bytes) == item_bytes(items[0]) + items_bytes(
            items.drop_first(),
            item_bytes,
        ),
    decreases items.len(),
{
    if items.len() == 1 {
        assert(items.drop_last() =~= Seq::<T>::empty());
        assert(items.drop_first() =~= Seq::<T>::empty());
        assert(items_bytes(items, item_bytes) =~= item_bytes(items[0]) + items_bytes(
            items.drop_first(),
            item_bytes,
        ));
    } else {
        lemma_items_bytes_first(items.drop_last(), item_bytes);
        assert(items.drop_last().drop_first() =~= items.drop_first().drop_last());
        assert(items.drop_first().last() == items.last());
        assert(items_bytes(items, item_bytes) =~= item_bytes(items[0]) + items_bytes(
            items.drop_first(),
            item_bytes,
        ));
    }
}

proof fn lemma_read_items<T>(
    items: Seq<T>,
    item_bytes: spec_fn(T) -> Seq<u8>,
    read_item: spec_fn(Seq<u8>) -> Option<(T, Seq<u8>)>,
    rest: Seq<u8>,
)
    requires
        forall|i: int, tail: Seq<u8>|
            0 <= i < items.len() ==> #[trigger] read_item(item_bytes(items[i]) + tail) == Some(
                (items[i], tail),
            ),
    ensures
        read_items(items.len(), items_bytes(items, item_bytes) + rest, read_item) == Some(
            (items, rest),
        ),
    decreases items.len(),
{
    if items.len() == 0 {
        assert(items_bytes(items, item_bytes) + rest =~= rest);
        assert(items =~= Seq::<T>::empty());
    } else {
        let later = items.drop_first();
        let tail = items_bytes(later, item_bytes) + rest;
        lemma_items_bytes_first(items, item_bytes);
        assert(items_bytes(items, item_bytes) + rest =~= item_bytes(items[0]) + tail);
        assert(read_item(item_bytes(items[0]) + tail) == Some((items[0], tail)));
        assert forall|i: int, tail: Seq<u8>| 0 <= i < later.len() implies #[trigger] read_item(
            item_bytes(later[i]) + tail,
        ) == Some((later[i], tail)) by {
            assert(later[i] == items[i + 1]);
        }
        lemma_read_items(later, item_bytes, read_item, rest);
        assert(seq![items[0]] + later =~= items);
    }
}

proof fn lemma_read_list<T>(
    items: Seq<T>,
    item_bytes: spec_fn(T) -> Seq<u8>,
    read_item: spec_fn(Seq<u8>) -> Option<(T, Seq<u8>)>,
    rest: Seq<u8>,
)
    requires
        forall|i: int, tail: Seq<u8>|
            0 <= i < items.len() ==> #[trigger] read_item(item_bytes(items[i]) + tail) == Some(
                (items[i], tail),
            ),
    ensures
        read_list(list_bytes(items, item_bytes) + rest, read_item) == Some((items, rest)),
{
    let body = items_bytes(items, item_bytes);
    assert(list_bytes(items, item_bytes) + rest =~= len_bytes(items.len()) + (body + rest));
    lemma_read_len(items.len(), body + rest);
    lemma_read_items(items, item_bytes, read_item, rest);
}

proof fn lemma_read_release(r: IndexRelease, rest: Seq<u8>)
    ensures
        read_release(release_bytes(r) + rest) == Some((r, rest)),
{
    let enc = |t: TargetView| target_bytes(t);
    let dec = |b: Seq<u8>| read_target(b);
    let list = list_bytes(r.targets, enc);
    assert(release_bytes(r) + rest =~= text_bytes(r.version) + (channel_bytes(r.channel) + (list
        + rest)));
    lemma_read_text(r.version, channel_bytes(r.channel) + (list + rest));
    lemma_read_channel(r.channel, list + rest);
    assert forall|i: int, tail: Seq<u8>| 0 <= i < r.targets.len() implies #[trigger] dec(
        enc(r.targets[i]) + tail,
    ) == Some((r.targets[i], tail)) by {
        lemma_read_target(r.targets[i], tail);
    }
    lemma_read_list(r.targets, enc, dec, rest);
}

proof fn lemma_read_entry(e: IndexEntry, rest: Seq<u8>)
    ensures
        read_entry(entry_bytes(e) + rest) == Some((e, rest)),
{
    let enc = |r: IndexRelease| release_bytes(r);
    let dec = |b: Seq<u8>| read_release(b);
    let list = list_bytes(e.releases, enc);
    assert(entry_bytes(e) + rest =~= text_bytes(e.id) + (list + rest));
    lemma_read_text(e.id, list + rest);
    assert forall|i: int, tail: Seq<u8>| 0 <= i < e.releases.len() implies #[trigger] dec(
        enc(e.releases[i]) + tail,
    ) == Some((e.releases[i], tail)) by {
        lemma_read_release(e.releases[i], tail);
    }
    lemma_read_list(e.releases, enc, dec, rest);
}

/// An index lists exactly the entries it was built from: nothing of a
/// package's identifier, of a release's version and channel, or of a target's
/// platform and URL is lost in it.
pub proof fn lemma_index_lists_its_entries(entries: Seq<IndexEntry>)
    ensures
        read_index(index_bytes(entries)) == Some(entries),
{
    let enc = |e: IndexEntry| entry_bytes(e);
    let dec = |b: Seq<u8>| read_entry(b);
    let b = index_bytes(entries);
    assert(b.take(4) =~= magic());
    assert(b.skip(4) =~= list_bytes(entries, enc) + Seq::<u8>::empty());
    assert forall|i: int, tail: Seq<u8>| 0 <= i < entries.len() implies #[trigger] dec(
        enc(entries[i]) + tail,
    ) == Some((entries[i], tail)) by {
        lemma_read_entry(entries[i], tail);
    }
    lemma_read_list(entries, enc, dec, Seq::<u8>::empty());
}

/// Two lists of entries with the same index are the same list.
pub proof fn lemma_index_is_injective(a: Seq<IndexEntry>, b: Seq<IndexEntry>)
    requires
        index_bytes(a) == index_bytes(b),
    ensures
        a == b,
{
    lemma_index_lists_its_entries(a);
    lemma_index_lists_its_entries(b);
}

/// The index depends on nothing but what it lists: lists of packages that
/// agree in identifiers, in the versions and channels of releases and in the
/// platforms and URLs of targets have the same index, byte for byte.
pub proof fn lemma_same_entries_same_index(a: Seq<PackageView>, b: Seq<PackageView>)
    requires
        index_entries(a) == index_entries(b),
    ensures
        catalog_bytes(a) == catalog_bytes(b),
{
}

/// And the other way round: lists of packages with the same index agree in
/// all that the index lists.
pub proof fn lemma_same_index_same_entries(a: Seq<PackageView>, b: Seq<PackageView>)
    requires
        catalog_bytes(a) == catalog_bytes(b),
    ensures
        index_entries(a) == index_entries(b),
{
    lemma_index_is_injective(index_entries(a), index_entries(b));
}

proof fn lemma_items_bytes_push<T>(items: Seq<T>, item: T, item_bytes: spec_fn(T) -> Seq<u8>)
    ensures
        items_bytes(items.push(item), item_bytes) == items_bytes(items, item_bytes) + item_bytes(
            item,
        ),
{
    assert(items.push(item).drop_last() =~= items);
}

fn put_bytes(out: &mut Vec<u8>, bytes: &[u8])
    ensures
        final(out)@ == old(out)@ + bytes@,
{
    let mut i: usize = 0;
    while i < bytes.len()
        invariant
            i <= bytes@.len(),
            out@ == old(out)@ + bytes@.take(i as int),
        decreases bytes@.len() - i,
    {
        out.push(bytes[i]);
        assert(bytes@.take(i + 1) =~= bytes@.take(i as int).push(bytes@[i as int]));
        i = i + 1;
    }
    assert(bytes@.take(i as int) =~= bytes@);
}

fn put_len(out: &mut Vec<u8>, n: usize)
    ensures
        final(out)@ == old(out)@ + len_bytes(n as nat),
{
    let mut left: usize = n;
    while left >= 128
        invariant
            out@ + len_bytes(left as nat) == old(out)@ + len_bytes(n as nat),
        decreases left,
    {
        let ghost before = out@;
        let low: u8 = (128 + left % 128) as u8;
        out.push(low);
        assert(out@ + len_bytes((left / 128) as nat) =~= before + len_bytes(left as nat));
        left = left / 128;
    }
    let ghost before = out@;
    out.push(left as u8);
    assert(out@ =~= before + len_bytes(left as nat));
}

fn put_text(out: &mut Vec<u8>, s: &str)
    ensures
        final(out)@ == old(out)@ + text_bytes(s@),
{
    let b = s.as_bytes();
    put_len(out, b.len());
    put_bytes(out, b);
    assert(out@ =~= old(out)@ + text_bytes(s@));
}

fn put_channel(out: &mut Vec<u8>, c: &Option<String>)
    ensures
        final(out)@ == old(out)@ + channel_bytes(optional_text(*c)),
{
    match c {
        None => {
            out.push(0u8);
            assert(out@ =~= old(out)@ + seq![0u8]);
        },
        Some(s) => {
            out.push(1u8);
            put_text(out, s.as_str());
            assert(out@ =~= old(out)@ + (seq![1u8] + text_bytes(s@)));
        },
    }
}

fn put_target(out: &mut Vec<u8>, t: &Target)
    ensures
        final(out)@ == old(out)@ + target_bytes(t@),
{
    put_text(out, t.platform.as_str());
    put_text(out, t.url.as_str());
    assert(out@ =~= old(out)@ + target_bytes(t@));
}

fn put_release(out: &mut Vec<u8>, r: &Release)
    ensures
        final(out)@ == old(out)@ + release_bytes(release_entry(r@)),
{
    put_text(out, r.version.text.as_str());
    put_channel(out, &r.channel);
    put_len(out, r.targets.len());
    let ghost head = out@;
    let ghost enc = |t: TargetView| target_bytes(t);
    let ghost all = r@.targets;
    let mut i: usize = 0;
    while i < r.targets.len()
        invariant
            i <= r.targets@.len(),
            all == r@.targets,
            enc == |t: TargetView| target_bytes(t),
            out@ == head + items_bytes(all.take(i as int), enc),
        decreases r.targets@.len() - i,
    {
        put_target(out, &r.targets[i]);
        proof {
            assert(all.take(i + 1) =~= all.take(i as int).push(all[i as int]));
            lemma_items_bytes_push(all.take(i as int), all[i as int], enc);
        }
        i = i + 1;
    }
    assert(all.take(i as int) =~= all);
    assert(out@ =~= old(out)@ + release_bytes(release_entry(r@)));
}

fn put_package(out: &mut Vec<u8>, p: &PackageRecord)
    ensures
        final(out)@ == old(out)@ + entry_bytes(package_entry(p@)),
{
    put_text(out, p.id.as_str());
    put_len(out, p.releases.len());
    let ghost head = out@;
    let ghost enc = |r: IndexRelease| release_bytes(r);
    let ghost all = package_entry(p@).releases;
    let mut i: usize = 0;
    while i < p.releases.len()
        invariant
            i <= p.releases@.len(),
            all == package_entry(p@).releases,
            enc == |r: IndexRelease| release_bytes(r),
            out@ == head + items_bytes(all.take(i as int), enc),
        decreases p.releases@.len() - i,
    {
        put_release(out, &p.releases[i]);
        proof {
            assert(all.take(i + 1) =~= all.take(i as int).push(all[i as int]));
            lemma_items_bytes_push(all.take(i as int), all[i as int], enc);
        }
        i = i + 1;
    }
    assert(all.take(i as int) =~= all);
    assert(out@ =~= old(out)@ + entry_bytes(package_entry(p@)));
}

/// Builds the binary index of `packages`, in the order given.
pub fn build_index(packages: &Vec<PackageRecord>) -> (index: Vec<u8>)
    ensures
        index@ == catalog_bytes(package_views(packages@)),
{
    let mut out: Vec<u8> = Vec::new();
    out.push(0x50u8);
    out.push(0x49u8);
    out.push(0x44u8);
    out.push(0x58u8);
    put_len(&mut out, packages.len());
    let ghost head = out@;
    let ghost enc = |e: IndexEntry| entry_bytes(e);
    let ghost all = index_entries(package_views(packages@));
    let mut i: usize = 0;
    while i < packages.len()
        invariant
            i <= packages@.len(),
            all == index_entries(package_views(packages@)),
            enc == |e: IndexEntry| entry_bytes(e),
            out@ == head + items_bytes(all.take(i as int), enc),
        decreases packages@.len() - i,
    {
        put_package(&mut out, &packages[i]);
        proof {
            assert(all.take(i + 1) =~= all.take(i as int).push(all[i as int]));
            lemma_items_bytes_push(all.take(i as int), all[i as int], enc);
        }
        i = i + 1;
    }
    assert(all.take(i as int) =~= all);
    assert(head =~= magic() + len_bytes(all.len()));
    assert(out@ =~= catalog_bytes(package_views(packages@)));
    out
}

/// The index of a repository without packages.
pub fn generate_empty_index() -> (index: Vec<u8>)
    ensures
        index@ == catalog_bytes(Seq::empty()),
{
    let packages: Vec<PackageRecord> = Vec::new();
    let index = build_index(&packages);
    assert(package_views(packages@) =~= Seq::empty());
    index
}

} // verus!
