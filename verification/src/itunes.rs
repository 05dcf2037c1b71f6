//! Album artwork lookup through the iTunes Search API: the search URL and its
//! query encoding, turning a search hit into metadata (with the artwork
//! enlarged), and the in-memory cache keyed by normalised title and artist.
use vstd::prelude::*;
use vstd::utf8::{encode_scalar, encode_utf8};
use vstd::string::StringExecFns;
use crate::text::{
    lemma_encode_utf8_concat, lowercase_spec, push_char, replace_spec, replace_str, same_text,
    to_lowercase, trim_spec, trim_string,
};

verus! {

/// Metadata found for a track.
#[derive(Debug, Clone)]
pub struct ItunesMetadata {
    pub artwork_url: String,
    pub track_url: Option<String>,
}

/// A copy of `m` equal to it.
pub fn copy_metadata(m: &Option<ItunesMetadata>) -> (r: Option<ItunesMetadata>)
    ensures
        r == *m,
{
    match m {
        Some(meta) => {
            let track_url = match &meta.track_url {
                Some(u) => Some(u.clone()),
                None => None,
            };
            Some(ItunesMetadata { artwork_url: meta.artwork_url.clone(), track_url })
        },
        None => None,
    }
}

// ---------------------------------------------------------------------------
// Query encoding
// ---------------------------------------------------------------------------

/// Bytes kept as they are in a query: ASCII letters, digits and `-_.~`.
pub open spec fn is_unreserved_byte(b: u8) -> bool {
    ||| 97 <= b <= 122
    ||| 65 <= b <= 90
    ||| 48 <= b <= 57
    ||| b == 45
    ||| b == 95
    ||| b == 46
    ||| b == 126
}

/// Upper-case hexadecimal digit for `n < 16`.
pub open spec fn hex_digit_char(n: u8) -> char {
    if n < 10 {
        (48 + n) as char
    } else {
        (55 + n) as char
    }
}

/// How one byte appears in a query: kept, `+` for a space, else `%XX`.
pub open spec fn encode_query_byte(b: u8) -> Seq<char> {
    if is_unreserved_byte(b) {
        seq![b as char]
    } else if b == 32 {
        seq!['+']
    } else {
        seq!['%', hex_digit_char(b / 16), hex_digit_char(b % 16)]
    }
}

/// A byte string encoded for a URL query, byte by byte.
pub open spec fn encode_query_spec(bytes: Seq<u8>) -> Seq<char>
    decreases bytes.len(),
{
    if bytes.len() == 0 {
        seq![]
    } else {
        encode_query_spec(bytes.drop_last()) + encode_query_byte(bytes.last())
    }
}

/// Characters that can stand in a URL query unescaped.
pub open spec fn is_query_safe_char(c: char) -> bool {
    ||| 'a' <= c <= 'z'
    ||| 'A' <= c <= 'Z'
    ||| '0' <= c <= '9'
    ||| c == '-'
    ||| c == '_'
    ||| c == '.'
    ||| c == '~'
    ||| c == '+'
    ||| c == '%'
}

/// Every encoded query consists of URL-safe characters only.
pub proof fn lemma_encoded_query_is_safe(bytes: Seq<u8>)
    ensures
        forall|i: int|
            0 <= i < encode_query_spec(bytes).len() ==> is_query_safe_char(
                #[trigger] encode_query_spec(bytes)[i],
            ),
    decreases bytes.len(),
{
    if bytes.len() > 0 {
        lemma_encoded_query_is_safe(bytes.drop_last());
        let prev = encode_query_spec(bytes.drop_last());
        let last = encode_query_byte(bytes.last());
        let b = bytes.last();
        assert forall|i: int| 0 <= i < last.len() implies is_query_safe_char(#[trigger] last[i]) by {
            if !is_unreserved_byte(b) && b != 32 {
                assert(b / 16 < 16);
                assert(b % 16 < 16);
            }
        }
        assert forall|i: int|
            0 <= i < encode_query_spec(bytes).len() implies is_query_safe_char(
                #[trigger] encode_query_spec(bytes)[i],
            ) by {
            if i < prev.len() {
                assert(encode_query_spec(bytes)[i] == prev[i]);
            } else {
                assert(encode_query_spec(bytes)[i] == last[i - prev.len()]);
            }
        }
    }
}

/// The value of a hexadecimal digit (either case); 0 for any other character.
pub open spec fn hex_value(c: char) -> int {
    if '0' <= c <= '9' {
        c as int - 48
    } else if 'A' <= c <= 'F' {
        c as int - 55
    } else if 'a' <= c <= 'f' {
        c as int - 87
    } else {
        0
    }
}

/// Percent-decoding of a query, read from the front: `%XX` is the byte with
/// hexadecimal value `XX`, `+` is a space, any other character is its own
/// byte.
pub open spec fn decode_query(s: Seq<char>) -> Seq<u8>
    decreases s.len(),
{
    if s.len() == 0 {
        seq![]
    } else if s[0] == '%' && s.len() >= 3 {
        seq![(16 * hex_value(s[1]) + hex_value(s[2])) as u8] + decode_query(s.skip(3))
    } else if s[0] == '+' {
        seq![32u8] + decode_query(s.skip(1))
    } else {
        seq![s[0] as u8] + decode_query(s.skip(1))
    }
}

/// Encoding a concatenation encodes each part in turn.
pub proof fn lemma_encode_query_concat(a: Seq<u8>, b: Seq<u8>)
    ensures
        encode_query_spec(a + b) == encode_query_spec(a) + encode_query_spec(b),
    decreases b.len(),
{
    if b.len() == 0 {
        assert(a + b =~= a);
        assert(encode_query_spec(a) + encode_query_spec(b) =~= encode_query_spec(a));
    } else {
        lemma_encode_query_concat(a, b.drop_last());
        assert((a + b).drop_last() =~= a + b.drop_last());
        assert((a + b).last() == b.last());
        assert(encode_query_spec(a) + encode_query_spec(b.drop_last()) + encode_query_byte(b.last())
            =~= encode_query_spec(a) + (encode_query_spec(b.drop_last()) + encode_query_byte(
            b.last())));
    }
}

/// A hexadecimal digit reads back as the number it was written for.
proof fn lemma_hex_digit_value(n: u8)
    requires
        n < 16,
    ensures
        hex_value(hex_digit_char(n)) == n,
{
}

/// Encoding loses nothing: percent-decoding an encoded query gives back
/// exactly the bytes that were encoded.
pub proof fn lemma_decode_encoded_query(bytes: Seq<u8>)
    ensures
        decode_query(encode_query_spec(bytes)) == bytes,
    decreases bytes.len(),
{
    if bytes.len() > 0 {
        let b = bytes[0];
        let rest = bytes.drop_first();
        assert(bytes =~= seq![b] + rest);
        lemma_encode_query_concat(seq![b], rest);
        assert(seq![b].drop_last() =~= Seq::<u8>::empty());
        assert(seq![b].last() == b);
        assert(encode_query_spec(Seq::<u8>::empty()) =~= Seq::<char>::empty());
        assert(encode_query_spec(seq![b]) =~= encode_query_byte(b));
        lemma_decode_encoded_query(rest);
        let e = encode_query_byte(b);
        let s = encode_query_spec(bytes);
        assert(s == e + encode_query_spec(rest));
        assert(s.skip(e.len() as int) =~= encode_query_spec(rest));
        if is_unreserved_byte(b) {
            assert(s[0] == b as char);
            assert((b as char) as u8 == b);
        } else if b == 32 {
            assert(s[0] == '+');
        } else {
            lemma_hex_digit_value(b / 16);
            lemma_hex_digit_value(b % 16);
            assert(s[0] == '%');
            assert(s[1] == hex_digit_char(b / 16));
            assert(s[2] == hex_digit_char(b % 16));
            assert(16 * (b / 16) + b % 16 == b);
        }
        assert(decode_query(s) =~= seq![b] + rest);
    }
}

/// ASCII letters, digits, `-`, `_`, `.`, `~` and the space.
pub open spec fn is_plain_query_byte(b: u8) -> bool {
    ||| 97 <= b <= 122
    ||| 65 <= b <= 90
    ||| 48 <= b <= 57
    ||| b == 45
    ||| b == 95
    ||| b == 46
    ||| b == 126
    ||| b == 32
}

/// The character that stands for a plain byte in a query: `+` for the
/// space, the byte itself otherwise.
pub open spec fn plain_query_char(b: u8) -> char {
    if b == 32 {
        '+'
    } else {
        b as char
    }
}

/// A query made of ASCII letters, digits, `-`, `_`, `.`, `~` and spaces goes
/// out with one character per byte: each byte as itself, a space as `+`.
pub proof fn lemma_plain_query_unchanged(bytes: Seq<u8>)
    requires
        forall|i: int| 0 <= i < bytes.len() ==> is_plain_query_byte(#[trigger] bytes[i]),
    ensures
        encode_query_spec(bytes) == bytes.map_values(|b: u8| plain_query_char(b)),
    decreases bytes.len(),
{
    let f = |b: u8| plain_query_char(b);
    if bytes.len() > 0 {
        let init = bytes.drop_last();
        assert forall|i: int| 0 <= i < init.len() implies is_plain_query_byte(#[trigger] init[i]) by {
            assert(init[i] == bytes[i]);
        }
        lemma_plain_query_unchanged(init);
        let b = bytes[bytes.len() - 1];
        assert(is_plain_query_byte(b));
        assert(encode_query_byte(b) =~= seq![f(b)]);
        assert(bytes.map_values(f) =~= init.map_values(f) + seq![f(bytes.last())]);
    } else {
        assert(bytes.map_values(f) =~= Seq::<char>::empty());
    }
}

/// Hexadecimal digit for `n`.
fn hex_digit(n: u8) -> (c: char)
    requires
        n < 16,
    ensures
        c == hex_digit_char(n),
{
    if n < 10 {
        (48 + n) as char
    } else {
        (55 + n) as char
    }
}

/// Encodes a byte string for a URL query.
pub fn encode_query_bytes(bytes: &[u8]) -> (r: String)
    ensures
        r@ == encode_query_spec(bytes@),
        decode_query(r@) == bytes@,
{
    let mut out = String::new();
    let mut i: usize = 0;
    while i < bytes.len()
        invariant
            i <= bytes@.len(),
            out@ == encode_query_spec(bytes@.take(i as int)),
        decreases bytes.len() - i,
    {
        let b = bytes[i];
        let ghost before = out@;
        proof {
            assert(bytes@.take(i + 1).drop_last() =~= bytes@.take(i as int));
            assert(bytes@.take(i + 1).last() == b);
        }
        if (97 <= b && b <= 122) || (65 <= b && b <= 90) || (48 <= b && b <= 57) || b == 45 || b
            == 95 || b == 46 || b == 126 {
            push_char(&mut out, b as char);
        } else if b == 32 {
            push_char(&mut out, '+');
        } else {
            push_char(&mut out, '%');
            push_char(&mut out, hex_digit(b / 16));
            push_char(&mut out, hex_digit(b % 16));
            assert(out@ =~= before + encode_query_byte(b));
        }
        i += 1;
    }
    assert(bytes@.take(bytes@.len() as int) =~= bytes@);
    proof {
        lemma_decode_encoded_query(bytes@);
    }
    out
}

/// Encodes a string for a URL query: its UTF-8 bytes, one by one.
pub fn encode_query(input: &str) -> (r: String)
    ensures
        r@ == encode_query_spec(encode_utf8(input@)),
        decode_query(r@) == encode_utf8(input@),
{
    encode_query_bytes(input.as_bytes())
}

// ---------------------------------------------------------------------------
// Search URL and results
// ---------------------------------------------------------------------------

/// Start of the search URL, up to the query term.
pub const ITUNES_SEARCH_PREFIX: &'static str = "https://itunes.apple.com/search?term=";

/// End of the search URL: one song from the music catalogue.
pub const ITUNES_SEARCH_SUFFIX: &'static str = "&media=music&entity=song&limit=1";

/// The search URL for a title and an artist: the query is the title, a space,
/// and the artist.
pub open spec fn search_url_spec(title: Seq<char>, artist: Seq<char>) -> Seq<char> {
    ITUNES_SEARCH_PREFIX@ + encode_query_spec(encode_utf8(title + seq![' '] + artist))
        + ITUNES_SEARCH_SUFFIX@
}

/// The search URL for a track.
pub fn search_url(title: &str, artist: &str) -> (r: String)
    ensures
        r@ == search_url_spec(title@, artist@),
{
    broadcast use vstd::string::group_string_axioms;

    let mut query: Vec<u8> = vstd::slice::slice_to_vec(title.as_bytes());
    query.push(32u8);
    let mut rest: Vec<u8> = vstd::slice::slice_to_vec(artist.as_bytes());
    query.append(&mut rest);
    proof {
        lemma_encode_utf8_concat(title@, seq![' ']);
        lemma_encode_utf8_concat(title@ + seq![' '], artist@);
        assert(encode_utf8(seq![' ']) =~= seq![32u8]) by {
            let sp = seq![' '];
            assert(sp.drop_first() =~= Seq::<char>::empty());
            assert(encode_utf8(sp.drop_first()) =~= Seq::<u8>::empty());
            assert(sp[0] as u32 == 32u32);
            assert((32u32 & 0x7F) as u8 == 32u8) by (bit_vector);
            assert(encode_scalar(32u32) =~= seq![32u8]);
            assert(encode_utf8(sp) =~= encode_scalar(32u32) + encode_utf8(sp.drop_first()));
        }
        assert(query@ =~= encode_utf8(title@ + seq![' '] + artist@));
    }
    let encoded = encode_query_bytes(query.as_slice());
    let mut url = ITUNES_SEARCH_PREFIX.to_string();
    url.append(encoded.as_str());
    url.append(ITUNES_SEARCH_SUFFIX);
    url
}

/// The artwork URL with the 100x100 thumbnail size replaced by 1024x1024.
pub open spec fn upscale_artwork_spec(url: Seq<char>) -> Seq<char> {
    replace_spec(
        replace_spec(url, "100x100bb"@, "1024x1024bb"@),
        "100x100"@,
        "1024x1024"@,
    )
}

/// Replaces the 100x100 thumbnail size in an artwork URL with 1024x1024.
pub fn upscale_artwork_url(url: &str) -> (r: String)
    ensures
        r@ == upscale_artwork_spec(url@),
{
    proof {
        reveal_strlit("100x100bb");
        reveal_strlit("100x100");
    }
    let first = replace_str(url, "100x100bb", "1024x1024bb");
    replace_str(first.as_str(), "100x100", "1024x1024")
}

/// Metadata from the first search hit: none without artwork; otherwise the
/// enlarged artwork and the track's page, if any.
pub fn metadata_from_track(artwork_url_100: Option<String>, track_view_url: Option<String>) -> (r:
    Option<ItunesMetadata>)
    ensures
        artwork_url_100 is None ==> r is None,
        artwork_url_100 matches Some(a) ==> r matches Some(m) && m.artwork_url@
            == upscale_artwork_spec(a@) && m.track_url == track_view_url,
{
    match artwork_url_100 {
        Some(a) => Some(
            ItunesMetadata { artwork_url: upscale_artwork_url(a.as_str()), track_url: track_view_url },
        ),
        None => None,
    }
}

// ---------------------------------------------------------------------------
// Cache
// ---------------------------------------------------------------------------

/// Separator between title and artist in a cache key.
pub const CACHE_KEY_SEPARATOR: &'static str = " --- ";

/// The cache key of a track: title and artist, each trimmed and lowercased.
pub open spec fn cache_key_spec(title: Seq<char>, artist: Seq<char>) -> Seq<char> {
    lowercase_spec(trim_spec(title)) + CACHE_KEY_SEPARATOR@ + lowercase_spec(trim_spec(artist))
}

/// The cache key of a track.
pub fn cache_key(title: &str, artist: &str) -> (r: String)
    ensures
        r@ == cache_key_spec(title@, artist@),
{
    let t = trim_string(title);
    let a = trim_string(artist);
    let lt = to_lowercase(t.as_str());
    let la = to_lowercase(a.as_str());
    let mut key = lt;
    key.append(CACHE_KEY_SEPARATOR);
    key.append(la.as_str());
    key
}

/// The map that a list of cache entries stands for; a later entry for a key
/// overrides an earlier one.
pub open spec fn entries_map(s: Seq<(String, Option<ItunesMetadata>)>) -> Map<
    Seq<char>,
    Option<ItunesMetadata>,
>
    decreases s.len(),
{
    if s.len() == 0 {
        Map::empty()
    } else {
        entries_map(s.drop_last()).insert(s.last().0@, s.last().1)
    }
}

/// No key occurs twice among the entries.
pub open spec fn keys_distinct(s: Seq<(String, Option<ItunesMetadata>)>) -> bool {
    forall|i: int, j: int| 0 <= i < s.len() && 0 <= j < s.len() && i != j ==> s[i].0@ != s[j].0@
}

/// With distinct keys, the map holds exactly the entries' keys, each with its
/// entry's value.
proof fn lemma_entries_map(s: Seq<(String, Option<ItunesMetadata>)>)
    requires
        keys_distinct(s),
    ensures
        forall|k: Seq<char>|
            #![trigger entries_map(s).contains_key(k)]
            entries_map(s).contains_key(k) <==> exists|i: int| 0 <= i < s.len() && s[i].0@ == k,
        forall|i: int| 0 <= i < s.len() ==> #[trigger] entries_map(s)[s[i].0@] == s[i].1,
    decreases s.len(),
{
    if s.len() > 0 {
        let t = s.drop_last();
        assert(keys_distinct(t));
        lemma_entries_map(t);
        assert forall|k: Seq<char>|
            #![trigger entries_map(s).contains_key(k)]
            entries_map(s).contains_key(k) <==> exists|i: int| 0 <= i < s.len() && s[i].0@ == k by {
            if entries_map(s).contains_key(k) && k != s.last().0@ {
                assert(entries_map(t).contains_key(k));
                let i = choose|i: int| 0 <= i < t.len() && t[i].0@ == k;
                assert(s[i] == t[i]);
            }
            if exists|i: int| 0 <= i < s.len() && s[i].0@ == k {
                let i = choose|i: int| 0 <= i < s.len() && s[i].0@ == k;
                if i < t.len() {
                    assert(t[i] == s[i]);
                    assert(entries_map(t).contains_key(k));
                }
            }
        }
        assert forall|i: int| 0 <= i < s.len() implies #[trigger] entries_map(s)[s[i].0@]
            == s[i].1 by {
            if i < t.len() {
                assert(t[i] == s[i]);
                assert(s[i].0@ != s.last().0@);
                assert(entries_map(t)[t[i].0@] == t[i].1);
            }
        }
    }
}

/// Replacing the entry of key `k` in place updates the map at `k`.
proof fn lemma_entries_map_update(
    s: Seq<(String, Option<ItunesMetadata>)>,
    j: int,
    e: (String, Option<ItunesMetadata>),
)
    requires
        keys_distinct(s),
        0 <= j < s.len(),
        s[j].0@ == e.0@,
    ensures
        entries_map(s.update(j, e)) == entries_map(s).insert(e.0@, e.1),
    decreases s.len(),
{
    let u = s.update(j, e);
    let t = s.drop_last();
    if j == s.len() - 1 {
        assert(u.drop_last() =~= t);
        assert(entries_map(u) =~= entries_map(s).insert(e.0@, e.1));
    } else {
        assert(keys_distinct(t));
        lemma_entries_map_update(t, j, e);
        assert(u.drop_last() =~= t.update(j, e));
        assert(s.last().0@ != e.0@);
        assert(entries_map(u) =~= entries_map(s).insert(e.0@, e.1));
    }
}

/// The track metadata already looked up, by cache key (an absent result is
/// remembered too, so that a track is searched only once).
pub struct MetadataCache {
    entries: Vec<(String, Option<ItunesMetadata>)>,
}

impl View for MetadataCache {
    type V = Map<Seq<char>, Option<ItunesMetadata>>;

    closed spec fn view(&self) -> Self::V {
        entries_map(self.entries@)
    }
}

impl MetadataCache {
    #[verifier::type_invariant]
    closed spec fn distinct_keys(&self) -> bool {
        keys_distinct(self.entries@)
    }

    /// An empty cache.
    pub fn new() -> (r: Self)
        ensures
            r@ == Map::<Seq<char>, Option<ItunesMetadata>>::empty(),
    {
        MetadataCache { entries: Vec::new() }
    }

    /// The remembered result for `key`, if the key was looked up before.
    pub fn get(&self, key: &str) -> (r: Option<Option<ItunesMetadata>>)
        ensures
            r is Some <==> self@.contains_key(key@),
            r matches Some(v) ==> v == self@[key@],
    {
        proof {
            use_type_invariant(self);
            lemma_entries_map(self.entries@);
        }
        let mut i: usize = 0;
        while i < self.entries.len()
            invariant
                i <= self.entries@.len(),
                keys_distinct(self.entries@),
                forall|j: int| 0 <= j < i ==> #[trigger] self.entries@[j].0@ != key@,
            decreases self.entries.len() - i,
        {
            if same_text(self.entries[i].0.as_str(), key) {
                proof {
                    lemma_entries_map(self.entries@);
                    assert(entries_map(self.entries@)[self.entries@[i as int].0@]
                        == self.entries@[i as int].1);
                }
                return Some(copy_metadata(&self.entries[i].1));
            }
            i += 1;
        }
        proof {
            lemma_entries_map(self.entries@);
        }
        None
    }

    /// Remembers `value` for `key`, replacing what was there.
    pub fn insert(&mut self, key: String, value: Option<ItunesMetadata>)
        ensures
            final(self)@ == old(self)@.insert(key@, value),
    {
        proof {
            use_type_invariant(&*self);
            lemma_entries_map(self.entries@);
        }
        let mut entries: Vec<(String, Option<ItunesMetadata>)> = Vec::new();
        std::mem::swap(&mut entries, &mut self.entries);
        let ghost old_entries = entries@;
        let mut i: usize = 0;
        while i < entries.len()
            invariant
                entries@ == old_entries,
                keys_distinct(old_entries),
                entries_map(old_entries) == old(self)@,
                i <= entries@.len(),
                forall|j: int| 0 <= j < i ==> #[trigger] entries@[j].0@ != key@,
            decreases entries.len() - i,
        {
            if same_text(entries[i].0.as_str(), key.as_str()) {
                let ghost e = (key, value);
                proof {
                    lemma_entries_map_update(old_entries, i as int, e);
                    assert forall|a: int, b: int|
                        0 <= a < old_entries.update(i as int, e).len() && 0 <= b
                            < old_entries.update(i as int, e).len() && a != b implies old_entries.update(
                        i as int,
                        e,
                    )[a].0@ != old_entries.update(i as int, e)[b].0@ by {}
                }
                entries.set(i, (key, value));
                self.entries = entries;
                return ;
            }
            i += 1;
        }
        let ghost e = (key, value);
        proof {
            assert(old_entries.push(e).drop_last() =~= old_entries);
            assert forall|a: int, b: int|
                0 <= a < old_entries.push(e).len() && 0 <= b < old_entries.push(e).len() && a
                    != b implies old_entries.push(e)[a].0@ != old_entries.push(e)[b].0@ by {
                if a < old_entries.len() && b < old_entries.len() {
                } else if a == old_entries.len() {
                    assert(old_entries.push(e)[b] == old_entries[b]);
                } else {
                    assert(old_entries.push(e)[a] == old_entries[a]);
                }
            }
        }
        entries.push((key, value));
        self.entries = entries;
    }
}

/// Outcome of looking a track up in the cache.
#[derive(Debug, Clone)]
pub enum CacheLookup {
    /// The track was searched before; this was the result (possibly none).
    Hit(Option<ItunesMetadata>),
    /// The track was never searched: fetch it, then record it under this key.
    Miss(String),
}

impl MetadataCache {
    /// Looks a track up: a hit gives the remembered result, which is then
    /// returned without a new request; a miss gives the key under which the
    /// fetched result is to be recorded with [`MetadataCache::insert`].
    pub fn lookup(&self, title: &str, artist: &str) -> (r: CacheLookup)
        ensures
            r matches CacheLookup::Hit(v) ==> self@.contains_key(cache_key_spec(title@, artist@))
                && v == self@[cache_key_spec(title@, artist@)],
            r matches CacheLookup::Miss(k) ==> k@ == cache_key_spec(title@, artist@)
                && !self@.contains_key(cache_key_spec(title@, artist@)),
    {
        let key = cache_key(title, artist);
        match self.get(key.as_str()) {
            Some(v) => CacheLookup::Hit(v),
            None => CacheLookup::Miss(key),
        }
    }
}

/// A repeated search is answered from the cache: once the result for a
/// title and artist has been recorded, looking up any title and artist that
/// trim and lowercase to the same text finds exactly that result (an absent
/// result included), so no second request is made.
pub proof fn lemma_repeat_search_hits(
    cache: Map<Seq<char>, Option<ItunesMetadata>>,
    title: Seq<char>,
    artist: Seq<char>,
    value: Option<ItunesMetadata>,
    title2: Seq<char>,
    artist2: Seq<char>,
)
    requires
        lowercase_spec(trim_spec(title2)) == lowercase_spec(trim_spec(title)),
        lowercase_spec(trim_spec(artist2)) == lowercase_spec(trim_spec(artist)),
    ensures
        cache.insert(cache_key_spec(title, artist), value).contains_key(
            cache_key_spec(title2, artist2),
        ),
        cache.insert(cache_key_spec(title, artist), value)[cache_key_spec(title2, artist2)]
            == value,
{
    assert(cache_key_spec(title2, artist2) == cache_key_spec(title, artist));
}

/// What the cache gives back for a key is what was last stored for it, and
/// storing under one key leaves every other key as it was.
pub proof fn lemma_cache_read_after_write(
    before: Map<Seq<char>, Option<ItunesMetadata>>,
    key: Seq<char>,
    value: Option<ItunesMetadata>,
    other: Seq<char>,
)
    requires
        other != key,
    ensures
        before.insert(key, value).contains_key(key),
        before.insert(key, value)[key] == value,
        before.insert(key, value).contains_key(other) == before.contains_key(other),
        before.contains_key(other) ==> before.insert(key, value)[other] == before[other],
{
}

} // verus!
