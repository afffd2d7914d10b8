//! Artwork resolution support: the ordered search queries sent to the
//! public search service, interpretation of a decoded response, the
//! low-to-high resolution upgrade of a found image URL, and the
//! process-lifetime cache keyed by (artist, album).
use vstd::prelude::*;

verus! {

/// What `urlencoding::encode` returns for a given input; the result
/// depends on the input characters alone.
pub uninterp spec fn percent_encoded_of(s: Seq<char>) -> Seq<char>;

/// Relies on urlencoding::encode: percent-encodes every byte except
/// ASCII alphanumerics and `-`, `_`, `.`, `~`, from the input alone.
#[verifier::external_body]
fn encode_component(s: &str) -> (r: String)
    ensures
        r@ == percent_encoded_of(s@),
{
    urlencoding::encode(s).into_owned()
}

/// The combined artist-and-album search query.
pub open spec fn query_joint(artist: Seq<char>, album: Seq<char>) -> Seq<char> {
    "https://itunes.apple.com/search?term="@ + percent_encoded_of(artist) + " "@
        + percent_encoded_of(album) + "&entity=album&limit=1"@
}

/// A search query over a single term (artist alone, or album alone).
pub open spec fn query_single(term: Seq<char>) -> Seq<char> {
    "https://itunes.apple.com/search?term="@ + percent_encoded_of(term) + "&entity=album&limit=1"@
}

/// The ordered query strategies for an (artist, album) pair: both terms,
/// then artist alone, then album alone. The caller tries them in order
/// and stops at the first usable response.
pub fn art_queries(artist: &String, album: &String) -> (qs: Vec<String>)
    ensures
        qs@.len() == 3,
        qs@[0]@ == query_joint(artist@, album@),
        qs@[1]@ == query_single(artist@),
        qs@[2]@ == query_single(album@),
{
    let ea = encode_component(artist.as_str());
    let eb = encode_component(album.as_str());

    let mut q0 = "https://itunes.apple.com/search?term=".to_owned();
    q0.append(ea.as_str());
    q0.append(" ");
    q0.append(eb.as_str());
    q0.append("&entity=album&limit=1");

    let mut q1 = "https://itunes.apple.com/search?term=".to_owned();
    q1.append(ea.as_str());
    q1.append("&entity=album&limit=1");

    let mut q2 = "https://itunes.apple.com/search?term=".to_owned();
    q2.append(eb.as_str());
    q2.append("&entity=album&limit=1");

    let mut qs: Vec<String> = Vec::new();
    qs.push(q0);
    qs.push(q1);
    qs.push(q2);
    qs
}

/// The image URL with every low-resolution `100x100` segment replaced by
/// the high-resolution `600x600` convention (leftmost-first, without
/// rescanning replaced text).
pub open spec fn spec_upgraded(s: Seq<char>) -> Seq<char>
    decreases s.len(),
{
    if s.len() < 7 {
        s
    } else if s.subrange(0, 7) == "100x100"@ {
        "600x600"@ + spec_upgraded(s.skip(7))
    } else {
        seq![s[0]] + spec_upgraded(s.skip(1))
    }
}

/// Whether the seven characters of `s` starting at `i` read `100x100`.
fn matches_low_res_at(s: &str, i: usize) -> (r: bool)
    requires
        i + 7 <= s@.len(),
        i + 7 <= usize::MAX,
    ensures
        r == (s@.subrange(i as int, i as int + 7) == "100x100"@),
{
    proof {
        reveal_strlit("100x100");
    }
    let r = s.get_char(i) == '1' && s.get_char(i + 1) == '0' && s.get_char(i + 2) == '0'
        && s.get_char(i + 3) == 'x' && s.get_char(i + 4) == '1' && s.get_char(i + 5) == '0'
        && s.get_char(i + 6) == '0';
    proof {
        let sub = s@.subrange(i as int, i as int + 7);
        if r {
            assert(sub =~= "100x100"@);
        } else if sub == "100x100"@ {
            assert(s@[i as int] == sub[0]);
            assert(s@[i as int + 1] == sub[1]);
            assert(s@[i as int + 2] == sub[2]);
            assert(s@[i as int + 3] == sub[3]);
            assert(s@[i as int + 4] == sub[4]);
            assert(s@[i as int + 5] == sub[5]);
            assert(s@[i as int + 6] == sub[6]);
        }
    }
    r
}

/// Upgrade a found artwork URL from the service's low-resolution naming
/// convention to the high-resolution one.
pub fn upgrade_artwork_url(url: &str) -> (r: String)
    ensures
        r@ == spec_upgraded(url@),
{
    let n = url.unicode_len();
    let mut out = String::new();
    let mut i: usize = 0;
    proof {
        assert(url@.skip(0) =~= url@);
        assert(Seq::<char>::empty() + spec_upgraded(url@) =~= spec_upgraded(url@));
    }
    while i < n
        invariant
            i <= n,
            n == url@.len(),
            spec_upgraded(url@) == out@ + spec_upgraded(url@.skip(i as int)),
        decreases n - i,
    {
        let ghost rest = url@.skip(i as int);
        let ghost out0 = out@;
        if n - i >= 7 && matches_low_res_at(url, i) {
            out.append("600x600");
            proof {
                assert(rest.subrange(0, 7) =~= url@.subrange(i as int, i as int + 7));
                assert(rest.skip(7) =~= url@.skip(i as int + 7));
                assert(spec_upgraded(rest) == "600x600"@ + spec_upgraded(rest.skip(7)));
                assert(out@ + spec_upgraded(url@.skip(i as int + 7)) =~= (out0 + "600x600"@)
                    + spec_upgraded(rest.skip(7)));
            }
            i += 7;
        } else {
            let piece = url.substring_char(i, i + 1);
            out.append(piece);
            proof {
                if rest.len() >= 7 {
                    assert(rest.subrange(0, 7) =~= url@.subrange(i as int, i as int + 7));
                }
                assert(rest.skip(1) =~= url@.skip(i as int + 1));
                assert(seq![rest[0]] =~= piece@);
                assert(spec_upgraded(rest) == seq![rest[0]] + spec_upgraded(rest.skip(1)));
                assert(out@ + spec_upgraded(url@.skip(i as int + 1)) =~= (out0 + piece@)
                    + spec_upgraded(rest.skip(1)));
            }
            i += 1;
        }
    }
    proof {
        assert(url@.skip(n as int) =~= Seq::<char>::empty());
        assert(out@ + spec_upgraded(url@.skip(n as int)) =~= out@);
    }
    out
}

/// Reads a decoded search response: a presence record may carry the
/// upgraded image URL only when the response reported at least one
/// result and its first result carried an image URL.
pub fn interpret_art_response(result_count: i32, artwork_url: Option<String>) -> (r: Option<
    String,
>)
    ensures
        r matches Some(v) ==> result_count > 0 && (artwork_url matches Some(u) && v@
            == spec_upgraded(u@)),
        r is None ==> !(result_count > 0 && artwork_url is Some),
{
    if result_count > 0 {
        match artwork_url {
            Some(u) => Some(upgrade_artwork_url(u.as_str())),
            None => None,
        }
    } else {
        None
    }
}

/// One cached resolution: the artwork reference recorded for an
/// (artist, album) pair, immutable once written.
struct ArtEntry {
    artist: String,
    album: String,
    art: String,
}

/// The first recorded artwork for the pair, scanning entries in the
/// order they were added.
spec fn first_art(s: Seq<ArtEntry>, artist: Seq<char>, album: Seq<char>) -> Option<Seq<char>>
    decreases s.len(),
{
    if s.len() == 0 {
        Option::None
    } else if s[0].artist@ == artist && s[0].album@ == album {
        Option::Some(s[0].art@)
    } else {
        first_art(s.skip(1), artist, album)
    }
}

proof fn lemma_first_art_push(s: Seq<ArtEntry>, e: ArtEntry, artist: Seq<char>, album: Seq<char>)
    ensures
        first_art(s.push(e), artist, album) == (if first_art(s, artist, album) is Some {
            first_art(s, artist, album)
        } else if e.artist@ == artist && e.album@ == album {
            Option::Some(e.art@)
        } else {
            Option::None
        }),
    decreases s.len(),
{
    let t = s.push(e);
    assert(t.len() == s.len() + 1);
    if s.len() == 0 {
        assert(t[0] == e);
        if e.artist@ == artist && e.album@ == album {
            assert(first_art(t, artist, album) == Option::Some(e.art@));
        } else {
            assert(t.skip(1) =~= Seq::<ArtEntry>::empty());
            assert(first_art(t, artist, album) == first_art(t.skip(1), artist, album));
            assert(first_art(t, artist, album) is None);
        }
        assert(first_art(s, artist, album) is None);
    } else {
        assert(t[0] == s[0]);
        if s[0].artist@ == artist && s[0].album@ == album {
            assert(first_art(t, artist, album) == Option::Some(s[0].art@));
            assert(first_art(s, artist, album) == Option::Some(s[0].art@));
        } else {
            assert(t.skip(1) =~= s.skip(1).push(e));
            lemma_first_art_push(s.skip(1), e, artist, album);
            assert(first_art(t, artist, album) == first_art(s.skip(1).push(e), artist, album));
            assert(first_art(s, artist, album) == first_art(s.skip(1), artist, album));
        }
    }
}

/// Process-lifetime artwork cache keyed by (artist, album). Entries are
/// written at most once per pair and never invalidated.
pub struct ArtCache {
    entries: Vec<ArtEntry>,
}

impl ArtCache {
    /// The artwork recorded for the pair, if any.
    pub closed spec fn spec_lookup(self, artist: Seq<char>, album: Seq<char>) -> Option<
        Seq<char>,
    > {
        first_art(self.entries@, artist, album)
    }

    /// Whether the pair already has a cache entry.
    pub open spec fn spec_contains_key(self, artist: Seq<char>, album: Seq<char>) -> bool {
        self.spec_lookup(artist, album) is Some
    }

    pub fn new() -> (c: ArtCache)
        ensures
            forall|a: Seq<char>, b: Seq<char>| c.spec_lookup(a, b) is None,
    {
        ArtCache { entries: Vec::new() }
    }

    /// Whether artwork resolution has already run for this pair; a hit
    /// short-circuits any further call to the search service.
    pub fn contains(&self, artist: &String, album: &String) -> (r: bool)
        ensures
            r == self.spec_contains_key(artist@, album@),
    {
        match self.lookup(artist, album) {
            Some(_) => true,
            None => false,
        }
    }

    /// The cached artwork reference for the pair, if one was recorded.
    pub fn lookup(&self, artist: &String, album: &String) -> (r: Option<String>)
        ensures
            match r {
                Option::Some(v) => self.spec_lookup(artist@, album@) == Option::Some(v@),
                Option::None => self.spec_lookup(artist@, album@) is None,
            },
    {
        let n = self.entries.len();
        let mut i: usize = 0;
        proof {
            assert(self.entries@.skip(0) =~= self.entries@);
        }
        while i < n
            invariant
                i <= n,
                n == self.entries@.len(),
                first_art(self.entries@, artist@, album@) == first_art(
                    self.entries@.skip(i as int),
                    artist@,
                    album@,
                ),
            decreases n - i,
        {
            let ghost rest = self.entries@.skip(i as int);
            let e = &self.entries[i];
            if e.artist == *artist && e.album == *album {
                proof {
                    assert(rest[0] == self.entries@[i as int]);
                }
                return Some(e.art.clone());
            }
            proof {
                assert(rest[0] == self.entries@[i as int]);
                assert(rest.skip(1) =~= self.entries@.skip(i as int + 1));
            }
            i += 1;
        }
        proof {
            assert(self.entries@.skip(n as int) =~= Seq::<ArtEntry>::empty());
        }
        None
    }

    /// Record the outcome of one artwork resolution for the pair: the
    /// found URL, or the sentinel reference when nothing usable was
    /// found. A pair that already has an entry is left untouched, so an
    /// entry can never change once written.
    pub fn store(&mut self, artist: String, album: String, art: Option<String>)
        ensures
            final(self).spec_lookup(artist@, album@) == (if old(self).spec_contains_key(
                artist@,
                album@,
            ) {
                old(self).spec_lookup(artist@, album@)
            } else {
                Option::Some(
                    match art {
                        Option::Some(v) => v@,
                        Option::None => "logo"@,
                    },
                )
            }),
            forall|a: Seq<char>, b: Seq<char>|
                !(a == artist@ && b == album@) ==> final(self).spec_lookup(a, b) == old(
                    self,
                ).spec_lookup(a, b),
            forall|a: Seq<char>, b: Seq<char>|
                old(self).spec_contains_key(a, b) ==> final(self).spec_lookup(a, b) == old(
                    self,
                ).spec_lookup(a, b),
    {
        if self.contains(&artist, &album) {
            return ;
        }
        let value = match art {
            Some(v) => v,
            None => "logo".to_owned(),
        };
        let ghost before = self.entries@;
        let entry = ArtEntry { artist, album, art: value };
        let ghost e = entry;
        self.entries.push(entry);
        proof {
            assert forall|a: Seq<char>, b: Seq<char>| true implies first_art(
                before.push(e),
                a,
                b,
            ) == (if first_art(before, a, b) is Some {
                first_art(before, a, b)
            } else if e.artist@ == a && e.album@ == b {
                Option::Some(e.art@)
            } else {
                Option::None
            }) by {
                lemma_first_art_push(before, e, a, b);
            }
        }
    }
}

} // verus!
