//! Parsing of container image strings into `{registry, repository, tag}`
//! triples, and the exact inverse direction: formatting a triple back into
//! its `registry/repository:tag` string form.

use vstd::prelude::*;
use vstd::string::StrSliceExecFns;
use vstd::string::StringExecFns;
use crate::text::{
    find_first, find_last, lemma_find_first_props, lemma_find_last_props, seq_contains_char,
    str_contains_char, str_find_first, str_find_last, lemma_find_last_is, lemma_find_first_is,
};

verus! {

/// A structured reference to a tagged container image.
///
/// Digest-pinned references are rejected by [`ImageReference::parse`], so a
/// value of this type always carries a registry, a repository and a tag.
#[derive(Debug)]
pub struct ImageReference {
    pub registry: String,
    pub repository: String,
    pub tag: String,
}

/// The mathematical model of an [`ImageReference`]: its three components as
/// character sequences.
pub struct ImageRefView {
    pub registry: Seq<char>,
    pub repository: Seq<char>,
    pub tag: Seq<char>,
}

impl View for ImageReference {
    type V = ImageRefView;

    open spec fn view(&self) -> ImageRefView {
        ImageRefView {
            registry: self.registry@,
            repository: self.repository@,
            tag: self.tag@,
        }
    }
}

impl Clone for ImageReference {
    fn clone(&self) -> (r: Self)
        ensures
            r@ == self@,
    {
        ImageReference {
            registry: self.registry.clone(),
            repository: self.repository.clone(),
            tag: self.tag.clone(),
        }
    }
}

/// Why an image string was rejected.
#[derive(Debug)]
pub enum ParseError {
    MissingRegistry,
    MissingRepository,
    MissingTag,
    InvalidFormat(String),
    DigestNotAllowed,
}

/// The model of a [`ParseError`]; `InvalidFormat` carries the rejected
/// input as a character sequence.
pub enum ParseErrorView {
    MissingRegistry,
    MissingRepository,
    MissingTag,
    InvalidFormat(Seq<char>),
    DigestNotAllowed,
}

impl View for ParseError {
    type V = ParseErrorView;

    open spec fn view(&self) -> ParseErrorView {
        match self {
            ParseError::MissingRegistry => ParseErrorView::MissingRegistry,
            ParseError::MissingRepository => ParseErrorView::MissingRepository,
            ParseError::MissingTag => ParseErrorView::MissingTag,
            ParseError::InvalidFormat(s) => ParseErrorView::InvalidFormat(s@),
            ParseError::DigestNotAllowed => ParseErrorView::DigestNotAllowed,
        }
    }
}

/// What parsing an image string yields.
///
/// The string is rejected outright when it contains `@`. Otherwise the tag
/// is everything after the last colon, provided that colon comes after the
/// last slash; the remaining prefix splits on its first slash into registry
/// and repository.
pub open spec fn spec_parse(s: Seq<char>) -> Result<ImageRefView, ParseErrorView> {
    if seq_contains_char(s, '@') {
        Err(ParseErrorView::DigestNotAllowed)
    } else {
        let colon = find_last(s, ':');
        let slash = find_last(s, '/');
        let slash_floor = if slash == -1 {
            0
        } else {
            slash
        };
        if colon <= slash_floor {
            Err(ParseErrorView::MissingTag)
        } else {
            let tag = s.subrange(colon + 1, s.len() as int);
            let rest = s.subrange(0, colon);
            let fs = find_first(rest, '/');
            if fs == -1 {
                Err(ParseErrorView::InvalidFormat(s))
            } else {
                let registry = rest.subrange(0, fs);
                let repository = rest.subrange(fs + 1, rest.len() as int);
                if registry.len() == 0 {
                    Err(ParseErrorView::MissingRegistry)
                } else if repository.len() == 0 {
                    Err(ParseErrorView::MissingRepository)
                } else {
                    Ok(ImageRefView { registry, repository, tag })
                }
            }
        }
    }
}

/// The string form of a reference: `registry/repository:tag`.
pub open spec fn spec_display(v: ImageRefView) -> Seq<char> {
    v.registry + seq!['/'] + v.repository + seq![':'] + v.tag
}

impl ImageReference {
    /// Parses a raw image string as reported by the container runtime,
    /// e.g. `registry.example.com/org/app:v1.2.3`.
    pub fn parse(s: &str) -> (r: Result<ImageReference, ParseError>)
        ensures
            match r {
                Ok(image) => spec_parse(s@) == Ok::<ImageRefView, ParseErrorView>(image@),
                Err(e) => spec_parse(s@) == Err::<ImageRefView, ParseErrorView>(e@),
            },
    {
        if str_contains_char(s, '@') {
            return Err(ParseError::DigestNotAllowed);
        }
        let n = s.unicode_len();
        let colon_opt = str_find_last(s, ':');
        let slash_opt = str_find_last(s, '/');
        let slash_floor: usize = match slash_opt {
            Some(i) => i,
            None => 0,
        };
        let colon: usize = match colon_opt {
            Some(p) => {
                if p > slash_floor {
                    p
                } else {
                    return Err(ParseError::MissingTag);
                }
            },
            None => {
                return Err(ParseError::MissingTag);
            },
        };
        proof {
            lemma_find_last_props(s@, ':');
        }
        let tag = s.substring_char(colon + 1, n).to_owned();
        let rest = s.substring_char(0, colon);
        let rest_n = rest.unicode_len();
        let fs: usize = match str_find_first(rest, '/') {
            Some(i) => i,
            None => {
                return Err(ParseError::InvalidFormat(s.to_owned()));
            },
        };
        proof {
            lemma_find_first_props(rest@, '/');
        }
        if fs == 0 {
            return Err(ParseError::MissingRegistry);
        }
        if fs + 1 == rest_n {
            return Err(ParseError::MissingRepository);
        }
        let registry = rest.substring_char(0, fs).to_owned();
        let repository = rest.substring_char(fs + 1, rest_n).to_owned();
        Ok(ImageReference { registry, repository, tag })
    }

    /// The string form `registry/repository:tag`.
    pub fn to_display_string(&self) -> (r: String)
        ensures
            r@ == spec_display(self@),
    {
        let mut out = self.registry.clone();
        out.append("/");
        out.append(self.repository.as_str());
        out.append(":");
        out.append(self.tag.as_str());
        proof {
            reveal_strlit("/");
            reveal_strlit(":");
            assert(out@ =~= spec_display(self@));
        }
        out
    }
}

impl ParseError {
    /// A human-readable description of the error.
    pub fn message(&self) -> (r: String)
        ensures
            r@ == self.spec_message(),
    {
        match self {
            ParseError::DigestNotAllowed => String::from_str("digest references are not allowed"),
            ParseError::MissingRegistry => String::from_str("registry is missing"),
            ParseError::MissingRepository => String::from_str("repository is missing"),
            ParseError::MissingTag => String::from_str("tag is missing"),
            ParseError::InvalidFormat(image) => String::from_str("invalid image format: ").concat(
                image.as_str(),
            ),
        }
    }

    /// The description promised by [`ParseError::message`].
    pub open spec fn spec_message(&self) -> Seq<char> {
        match self {
            ParseError::DigestNotAllowed => "digest references are not allowed"@,
            ParseError::MissingRegistry => "registry is missing"@,
            ParseError::MissingRepository => "repository is missing"@,
            ParseError::MissingTag => "tag is missing"@,
            ParseError::InvalidFormat(image) => "invalid image format: "@ + image@,
        }
    }
}

/// `c` occurs in a concatenation exactly when it occurs in one of the parts.
pub proof fn lemma_contains_concat(a: Seq<char>, b: Seq<char>, c: char)
    ensures
        seq_contains_char(a + b, c) <==> (seq_contains_char(a, c) || seq_contains_char(b, c)),
{
    if seq_contains_char(a, c) {
        let i = choose|i: int| 0 <= i < a.len() && a[i] == c;
        assert((a + b)[i] == c);
    }
    if seq_contains_char(b, c) {
        let i = choose|i: int| 0 <= i < b.len() && b[i] == c;
        assert((a + b)[a.len() + i] == c);
    }
    if seq_contains_char(a + b, c) {
        let i = choose|i: int| 0 <= i < (a + b).len() && (a + b)[i] == c;
        if i < a.len() {
            assert(a[i] == c);
        } else {
            assert(b[i - a.len()] == c);
        }
    }
}

/// Round trip: formatting a well-formed triple and parsing the result gives
/// the triple back. Well-formed means: registry and repository are
/// non-empty, no component contains `@`, the registry contains no slash,
/// and the tag contains neither slash nor colon.
pub proof fn lemma_parse_display_round_trip(v: ImageRefView)
    requires
        v.registry.len() > 0,
        v.repository.len() > 0,
        !seq_contains_char(v.registry, '@'),
        !seq_contains_char(v.repository, '@'),
        !seq_contains_char(v.tag, '@'),
        !seq_contains_char(v.registry, '/'),
        !seq_contains_char(v.tag, '/'),
        !seq_contains_char(v.tag, ':'),
    ensures
        spec_parse(spec_display(v)) == Ok::<ImageRefView, ParseErrorView>(v),
{
    let reg = v.registry;
    let repo = v.repository;
    let tag = v.tag;
    let rlen = reg.len() as int;
    let plen = repo.len() as int;
    let s = spec_display(v);

    // No `@` anywhere in the formatted string.
    lemma_contains_concat(reg, seq!['/'], '@');
    lemma_contains_concat(reg + seq!['/'], repo, '@');
    lemma_contains_concat(reg + seq!['/'] + repo, seq![':'], '@');
    lemma_contains_concat(reg + seq!['/'] + repo + seq![':'], tag, '@');
    assert(!seq_contains_char(s, '@'));

    // The last colon is the separator before the tag.
    let colon = rlen + 1 + plen;
    assert(s[colon] == ':');
    assert forall|i: int| colon < i < s.len() implies s[i] != ':' by {
        assert(s[i] == tag[i - (colon + 1)]);
        assert(!(tag[i - (colon + 1)] == ':')) by {
            if tag[i - (colon + 1)] == ':' {
                assert(seq_contains_char(tag, ':'));
            }
        }
    }
    lemma_find_last_is(s, ':', colon);

    // Every slash lies before the separator colon.
    assert(s[rlen] == '/');
    lemma_find_last_props(s, '/');
    let fl = find_last(s, '/');
    assert(seq_contains_char(s, '/')) by {
        assert(s[rlen] == '/');
    }
    assert(fl != -1);
    assert(fl >= rlen) by {
        if fl < rlen {
            assert(s[rlen] == '/');
        }
    }
    assert(fl < colon) by {
        if fl == colon {
            assert(s[colon] == ':');
        } else if fl > colon {
            assert(s[fl] == tag[fl - (colon + 1)]);
            assert(seq_contains_char(tag, '/'));
        }
    }

    // So the parse takes the tag branch, and the pieces line up.
    assert(s.subrange(colon + 1, s.len() as int) =~= tag);
    let rest = s.subrange(0, colon);
    assert(rest =~= reg + seq!['/'] + repo);
    assert(rest[rlen] == '/');
    assert forall|i: int| 0 <= i < rlen implies rest[i] != '/' by {
        assert(rest[i] == reg[i]);
        if reg[i] == '/' {
            assert(seq_contains_char(reg, '/'));
        }
    }
    lemma_find_first_is(rest, '/', rlen);
    assert(rest.subrange(0, rlen) =~= reg);
    assert(rest.subrange(rlen + 1, rest.len() as int) =~= repo);
}

} // verus!
