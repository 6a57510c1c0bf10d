//! Blog post data and URL slugs.
use vstd::prelude::*;

verus! {

/// The publication state of a post.
#[derive(Clone, Copy, Debug, PartialEq, Eq, Structural)]
pub enum PostStatus {
    Draft,
    Published,
    Archived,
}

impl PostStatus {
    /// The stored name of the status.
    pub fn as_str(&self) -> (r: &'static str)
        ensures
            r@ == (match self {
                PostStatus::Draft => "draft"@,
                PostStatus::Published => "published"@,
                PostStatus::Archived => "archived"@,
            }),
    {
        match self {
            PostStatus::Draft => "draft",
            PostStatus::Published => "published",
            PostStatus::Archived => "archived",
        }
    }
}

impl PostStatus {
    /// Whether posts in this state are public.
    pub fn is_published(&self) -> (r: bool)
        ensures
            r == (*self == PostStatus::Published),
    {
        match self {
            PostStatus::Published => true,
            _ => false,
        }
    }
}

/// The fields of a new post.
pub struct CreatePost {
    pub title: String,
    pub content: String,
    pub excerpt: Option<String>,
    pub status: PostStatus,
    pub tags: Option<Vec<String>>,
}

/// The fields to change in a post; `None` leaves a field as it is.
pub struct UpdatePost {
    pub title: Option<String>,
    pub content: Option<String>,
    pub excerpt: Option<String>,
    pub status: Option<PostStatus>,
    pub tags: Option<Vec<String>>,
}

impl CreatePost {
    /// When the new post is published: now if it is created published,
    /// else not yet.
    pub fn published_at(&self, now: i64) -> (r: Option<i64>)
        ensures
            r == (if self.status == PostStatus::Published {
                Some(now)
            } else {
                None
            }),
    {
        if self.status.is_published() {
            Some(now)
        } else {
            None
        }
    }
}

impl UpdatePost {
    /// Whether applying this update to a post in state `current` publishes
    /// it, so that its publication time is set.
    pub fn publishes(&self, current: PostStatus) -> (r: bool)
        ensures
            r == (self.status == Some(PostStatus::Published) && current != PostStatus::Published),
    {
        match self.status {
            Some(s) => s.is_published() && !current.is_published(),
            None => false,
        }
    }
}

/// What `str::to_lowercase` makes of a text.
pub uninterp spec fn lower_of(s: Seq<char>) -> Seq<char>;

/// Whether `char::is_alphanumeric` holds of a character.
pub uninterp spec fn is_alnum(c: char) -> bool;

/// Whether `char::is_whitespace` holds of a character.
pub uninterp spec fn is_space(c: char) -> bool;

/// Relies on `str::to_lowercase`: the result depends on the text alone.
#[verifier::external_body]
fn lowercase(s: &str) -> (r: String)
    ensures
        r@ == lower_of(s@),
{
    s.to_lowercase()
}

/// Relies on `char::is_alphanumeric` (Unicode `Alphabetic` or `Numeric`).
#[verifier::external_body]
fn char_is_alphanumeric(c: char) -> (r: bool)
    ensures
        r == is_alnum(c),
{
    c.is_alphanumeric()
}

/// Relies on `char::is_whitespace` (Unicode `White_Space`).
#[verifier::external_body]
fn char_is_whitespace(c: char) -> (r: bool)
    ensures
        r == is_space(c),
{
    c.is_whitespace()
}

/// Relies on `String`'s `FromIterator<char>`: the characters, in order.
#[verifier::external_body]
fn string_from_chars(v: Vec<char>) -> (r: String)
    ensures
        r@ == v@,
{
    String::from_iter(v)
}

/// The slug of `s` (already lower-cased): the runs of alphanumeric
/// characters, joined by single hyphens. Whitespace and hyphens separate runs;
/// other characters are dropped without separating. `pending` says that a
/// separator was seen since the last kept character, `started` that a
/// character was kept.
pub open spec fn slug_chars(s: Seq<char>, pending: bool, started: bool) -> Seq<char>
    decreases s.len(),
{
    if s.len() == 0 {
        Seq::empty()
    } else {
        let c = s[0];
        let rest = s.subrange(1, s.len() as int);
        if is_alnum(c) {
            (if pending { seq!['-', c] } else { seq![c] }) + slug_chars(rest, false, true)
        } else if is_space(c) || c == '-' {
            slug_chars(rest, started, started)
        } else {
            slug_chars(rest, pending, started)
        }
    }
}

/// The URL slug of a title.
pub open spec fn slug_of(text: Seq<char>) -> Seq<char> {
    slug_chars(lower_of(text), false, false)
}

/// A URL-friendly slug of `text`: lower case, alphanumeric runs joined by
/// single hyphens, other characters dropped.
pub fn slugify(text: &str) -> (r: String)
    ensures
        r@ == slug_of(text@),
{
    let lower = lowercase(text);
    let s = lower.as_str();
    let n = s.unicode_len();
    let mut out: Vec<char> = Vec::new();
    let mut pending = false;
    let mut started = false;
    let mut i: usize = 0;
    proof {
        assert(s@.subrange(0, n as int) == s@);
        assert(out@ + slug_chars(s@, false, false) == slug_chars(s@, false, false));
    }
    while i < n
        invariant
            n == s@.len(),
            s@ == lower_of(text@),
            i <= n,
            out@ + slug_chars(s@.subrange(i as int, n as int), pending, started) == slug_chars(
                s@,
                false,
                false,
            ),
        decreases n - i,
    {
        let c = s.get_char(i);
        let ghost rest = s@.subrange(i as int, n as int);
        proof {
            assert(rest[0] == c);
            assert(rest.subrange(1, rest.len() as int) == s@.subrange(i as int + 1, n as int));
        }
        if char_is_alphanumeric(c) {
            let ghost before = out@;
            if pending {
                out.push('-');
            }
            out.push(c);
            proof {
                let emitted = if pending { seq!['-', c] } else { seq![c] };
                assert(out@ == before + emitted);
                assert(before + (emitted + slug_chars(s@.subrange(i as int + 1, n as int), false, true))
                    == out@ + slug_chars(s@.subrange(i as int + 1, n as int), false, true));
            }
            pending = false;
            started = true;
        } else if char_is_whitespace(c) || c == '-' {
            pending = started;
        }
        i = i + 1;
    }
    proof {
        assert(s@.subrange(n as int, n as int) == Seq::<char>::empty());
        assert(out@ + Seq::<char>::empty() == out@);
    }
    string_from_chars(out)
}

} // verus!
