//! Clipboard monitoring: which clipboard contents count as secrets, and the
//! state the monitor keeps between two reads of the clipboard.
use vstd::prelude::*;
use crate::text::contains_char;
use crate::vault::{MultiSlotVault, pushed, utf8_len};
use crate::seal::within_aead_limit;
use vstd::utf8::encode_utf8;
use regex::RegexSet;

verus! {

#[verifier::external_type_specification]
#[verifier::external_body]
pub struct ExRegexSet(RegexSet);

#[verifier::external_type_specification]
#[verifier::external_body]
pub struct ExRegexError(regex::Error);

/// The patterns a compiled `RegexSet` was built from, in order.
pub uninterp spec fn regex_set_patterns(set: RegexSet) -> Seq<Seq<char>>;

/// Whether `RegexSet::new` accepts this list of patterns.
pub uninterp spec fn patterns_compile(patterns: Seq<Seq<char>>) -> bool;

/// Whether some pattern of a set built by `RegexSet::new` from `patterns`,
/// with the crate's default options, matches somewhere in `haystack` (the
/// answer of `RegexSet::is_match`).
pub uninterp spec fn pattern_set_matches(patterns: Seq<Seq<char>>, haystack: Seq<char>) -> bool;

/// Builds a set of regular expressions.
///
/// Calls `regex::RegexSet::new`. Whether it succeeds is a function of the
/// patterns alone (`patterns_compile`); on success the set holds exactly
/// these patterns, in order, as its `patterns()` method returns them.
#[verifier::external_body]
fn regex_set_new(patterns: &Vec<String>) -> (r: Result<RegexSet, regex::Error>)
    ensures
        r is Ok <==> patterns_compile(patterns.deep_view()),
        r matches Ok(set) ==> regex_set_patterns(set) == patterns.deep_view(),
{
    RegexSet::new(patterns)
}

/// The set without patterns.
///
/// Calls `regex::RegexSet::empty`, which the crate documents as the set
/// built from no patterns.
#[verifier::external_body]
fn regex_set_empty() -> (set: RegexSet)
    ensures
        regex_set_patterns(set) == Seq::<Seq<char>>::empty(),
{
    RegexSet::empty()
}

/// The detection patterns, compiled once.
pub struct PatternSet {
    set: RegexSet,
}

impl PatternSet {
    /// The patterns this set tests, in order.
    pub closed spec fn patterns(&self) -> Seq<Seq<char>> {
        regex_set_patterns(self.set)
    }

    /// Compiles `patterns`; when they do not compile, the set has no
    /// patterns and so matches nothing.
    pub fn compile(patterns: &Vec<String>) -> (r: PatternSet)
        ensures
            patterns_compile(patterns.deep_view()) ==> r.patterns() == patterns.deep_view(),
            !patterns_compile(patterns.deep_view()) ==> r.patterns() == Seq::<Seq<char>>::empty(),
    {
        match regex_set_new(patterns) {
            Ok(set) => PatternSet { set },
            Err(_) => PatternSet { set: regex_set_empty() },
        }
    }

    /// Whether one of the patterns matches somewhere in `text`.
    pub fn is_match(&self, text: &str) -> (r: bool)
        ensures
            r == pattern_set_matches(self.patterns(), text@),
            self.patterns().len() == 0 ==> !r,
    {
        regex_set_is_match(self, text)
    }

    /// The number of patterns.
    pub fn len(&self) -> (r: usize)
        ensures
            r == self.patterns().len(),
    {
        regex_set_len(self)
    }
}

/// Whether any pattern of the set matches somewhere in `haystack`.
///
/// Calls `regex::RegexSet::is_match` on the set inside a `PatternSet`.
/// Every `PatternSet` holds a set built by `RegexSet::new` or
/// `RegexSet::empty` with the crate's default options (its field is private
/// and `compile` is its only constructor), so the answer is a function of
/// the set's patterns and the haystack, named `pattern_set_matches`. The
/// crate documents that a set without patterns matches nothing.
#[verifier::external_body]
fn regex_set_is_match(set: &PatternSet, haystack: &str) -> (r: bool)
    ensures
        r == pattern_set_matches(set.patterns(), haystack@),
        set.patterns().len() == 0 ==> !r,
{
    set.set.is_match(haystack)
}

/// The number of patterns in the set.
///
/// Calls `regex::RegexSet::len`, documented as the number of regexes in the
/// set.
#[verifier::external_body]
fn regex_set_len(set: &PatternSet) -> (r: usize)
    ensures
        r == set.patterns().len(),
{
    set.set.len()
}

/// Whether clipboard content counts as a secret: a detection pattern
/// matches it, or its entropy is above the threshold, it is at least
/// `min_length` bytes long and it holds no space.
pub open spec fn is_sensitive_content(
    pattern_hit: bool,
    entropy_above_threshold: bool,
    content: Seq<char>,
    min_length: usize,
) -> bool {
    pattern_hit || (entropy_above_threshold && utf8_len(content) >= min_length && !content.contains(
        ' ',
    ))
}

/// Whether clipboard content counts as a secret (see `is_sensitive_content`);
/// `entropy_above_threshold` tells whether its Shannon entropy exceeds the
/// configured minimum.
pub fn is_sensitive(
    patterns: &PatternSet,
    content: &str,
    entropy_above_threshold: bool,
    min_length: usize,
) -> (r: bool)
    ensures
        r == is_sensitive_content(
            pattern_set_matches(patterns.patterns(), content@),
            entropy_above_threshold,
            content@,
            min_length,
        ),
        pattern_set_matches(patterns.patterns(), content@) ==> r,
        !pattern_set_matches(patterns.patterns(), content@) ==> (r <==> (entropy_above_threshold
            && utf8_len(content@) >= min_length && !content@.contains(' '))),
{
    let pattern_hit = patterns.is_match(content);
    let long_enough = content.len() >= min_length;
    let has_space = contains_char(content, ' ');
    pattern_hit || (entropy_above_threshold && long_enough && !has_space)
}

/// What the monitor remembers between two reads of the clipboard.
pub struct ClipboardMonitor {
    last_content: String,
    last_error: Option<String>,
}

/// The model of the monitor: the last content looked at and the last read
/// error reported.
pub struct MonitorView {
    pub last_content: Seq<char>,
    pub last_error: Option<Seq<char>>,
}

impl View for ClipboardMonitor {
    type V = MonitorView;

    closed spec fn view(&self) -> MonitorView {
        MonitorView {
            last_content: self.last_content@,
            last_error: match self.last_error {
                Some(e) => Some(e@),
                None => None,
            },
        }
    }
}

/// Whether freshly read content has to be looked at: it is not empty and
/// differs from the content looked at last.
pub open spec fn is_new_content(m: MonitorView, content: Seq<char>) -> bool {
    content.len() > 0 && content != m.last_content
}

impl ClipboardMonitor {
    /// A monitor that has seen nothing yet.
    pub fn new() -> (m: Self)
        ensures
            m@.last_content == Seq::<char>::empty(),
            m@.last_error == None::<Seq<char>>,
    {
        ClipboardMonitor { last_content: String::new(), last_error: None }
    }

    /// Takes note of text read from the clipboard. Returns whether it is new
    /// content that has to be looked at; if so it becomes the last content.
    /// A successful read clears the remembered error.
    pub fn observe_text(&mut self, content: &str) -> (fresh: bool)
        ensures
            fresh == is_new_content(old(self)@, content@),
            final(self)@.last_error == None::<Seq<char>>,
            final(self)@.last_content == (if fresh {
                content@
            } else {
                old(self)@.last_content
            }),
    {
        self.last_error = None;
        if content.is_empty() {
            return false;
        }
        let same = text_equals(self.last_content.as_str(), content);
        if same {
            false
        } else {
            self.last_content = content.to_owned();
            true
        }
    }

    /// Takes note that the clipboard was wiped after its content was secured:
    /// the last content is forgotten (its bytes zeroed), so the same secret copied again is
    /// looked at again.
    pub fn clipboard_wiped(&mut self)
        ensures
            final(self)@.last_content == Seq::<char>::empty(),
            final(self)@.last_error == old(self)@.last_error,
    {
        crate::text::wipe_text(&mut self.last_content);
    }

    /// Takes note that content judged sensitive could not be secured (the
    /// vault was busy): the last content is forgotten (its bytes zeroed), so the same content is
    /// looked at again on the next read.
    pub fn securing_failed(&mut self)
        ensures
            final(self)@.last_content == Seq::<char>::empty(),
            final(self)@.last_error == old(self)@.last_error,
    {
        crate::text::wipe_text(&mut self.last_content);
    }

    /// Takes note of a failed read. Returns whether the error differs from
    /// the one reported last (only a change is worth reporting).
    pub fn observe_error(&mut self, message: &str) -> (changed: bool)
        ensures
            changed == (old(self)@.last_error != Some(message@)),
            final(self)@.last_error == Some(message@),
            final(self)@.last_content == old(self)@.last_content,
    {
        let changed = match &self.last_error {
            Some(e) => !text_equals(e.as_str(), message),
            None => true,
        };
        self.last_error = Some(message.to_owned());
        changed
    }
}

/// Moves clipboard content judged sensitive into the vault. Content too
/// long to seal is refused (`None`) and the vault is left as it was;
/// otherwise it becomes the vault's newest slot, sealed, and the identifier
/// it was given is returned.
pub fn secure_into(vault: &mut MultiSlotVault, content: String, entropy_bits: u32) -> (r: Option<
    u32,
>)
    ensures
        r is None <==> !within_aead_limit(encode_utf8(content@).len()),
        encode_utf8(content@).len() < 64 * 0xffff_ffff ==> r == Some(old(vault)@.next_id),
        r is None ==> final(vault)@ == old(vault)@ && final(vault).key() == old(vault).key(),
        r matches Some(id) ==> {
            &&& id == old(vault)@.next_id
            &&& exists|now: u128| final(vault)@ == pushed(old(vault)@, content@, entropy_bits, now)
            &&& final(vault).key() == old(vault).key()
        },
{
    let len = content.as_str().as_bytes().len();
    if len / 64 >= 0xffff_ffff {
        return None;
    }
    Some(vault.push(content, entropy_bits))
}

impl ClipboardMonitor {
    /// Takes note of the attempt to wipe the clipboard after its content was
    /// secured, and tells whether to announce it: only a wipe that worked is
    /// announced, and only when notifications are on. After a wipe that
    /// worked the last content is forgotten (see `clipboard_wiped`); after a
    /// failed one nothing changes.
    pub fn after_wipe(&mut self, wiped: bool, notifications_on: bool) -> (notify: bool)
        ensures
            notify == (wiped && notifications_on),
            wiped ==> final(self)@.last_content == Seq::<char>::empty(),
            !wiped ==> final(self)@ == old(self)@,
            final(self)@.last_error == old(self)@.last_error,
    {
        if wiped {
            self.clipboard_wiped();
            notifications_on
        } else {
            false
        }
    }
}

/// A detection pattern decides alone: content on which some pattern matches
/// is sensitive whatever its entropy, its length or the spaces in it.
pub proof fn lemma_pattern_hit_is_sensitive(
    entropy_above_threshold: bool,
    content: Seq<char>,
    min_length: usize,
)
    ensures
        is_sensitive_content(true, entropy_above_threshold, content, min_length),
{
}

/// Without a pattern match, content is sensitive exactly when its entropy is
/// above the threshold, it is at least `min_length` bytes long and it holds
/// no space; content with a space, short content, or low-entropy content is
/// not.
pub proof fn lemma_unmatched_content_needs_entropy_length_and_no_space(
    entropy_above_threshold: bool,
    content: Seq<char>,
    min_length: usize,
)
    ensures
        is_sensitive_content(false, entropy_above_threshold, content, min_length) <==> (
        entropy_above_threshold && utf8_len(content) >= min_length && !content.contains(' ')),
        content.contains(' ') ==> !is_sensitive_content(false, entropy_above_threshold, content, min_length),
        !entropy_above_threshold ==> !is_sensitive_content(false, false, content, min_length),
{
}

/// Content is turned away from the vault only when the cipher cannot seal
/// it: anything shorter than `u32::MAX` blocks of 64 bytes (so anything
/// under a mebibyte, a JWT or a PEM key) is within the limit.
pub proof fn lemma_sealable_content(len: nat)
    ensures
        within_aead_limit(len) <==> len < 64 * 0xffff_ffff,
        len < 1_048_576 ==> within_aead_limit(len),
{
}

/// Whether two texts are equal, character for character.
pub fn text_equals(a: &str, b: &str) -> (r: bool)
    ensures
        r == (a@ == b@),
{
    let x = crate::text::chars_of(a);
    let y = crate::text::chars_of(b);
    if x.len() != y.len() {
        return false;
    }
    let n = x.len();
    for i in 0..n
        invariant
            n == x@.len(),
            n == y@.len(),
            x@ == a@,
            y@ == b@,
            forall|j: int| 0 <= j < i ==> x@[j] == y@[j],
    {
        if x[i] != y[i] {
            assert(x@[i as int] != y@[i as int]);
            return false;
        }
    }
    proof {
        assert(x@ =~= y@);
    }
    true
}

/// Content seen twice in a row is looked at only once: right after
/// `observe_text` accepted some content, the same content is not new.
pub proof fn lemma_same_content_looked_at_once(m: MonitorView, content: Seq<char>)
    requires
        is_new_content(m, content),
    ensures
        !is_new_content(MonitorView { last_content: content, last_error: None }, content),
{
}

/// Content that could not be secured is not lost: after `securing_failed`,
/// the same (non-empty) content is new again.
pub proof fn lemma_unsecured_content_retried(m: MonitorView, content: Seq<char>)
    requires
        content.len() > 0,
    ensures
        is_new_content(MonitorView { last_content: Seq::empty(), last_error: m.last_error }, content),
{
}

/// Empty clipboard content is never looked at.
pub proof fn lemma_empty_content_ignored(m: MonitorView)
    ensures
        !is_new_content(m, Seq::<char>::empty()),
{
}

} // verus!
