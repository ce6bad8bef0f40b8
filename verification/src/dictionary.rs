//! The user's custom vocabulary: at most 100 phrases of at most 80
//! characters each, every one tagged with a context, kept in order.
use crate::format::{push_char, string_from_chars};
use crate::text::{chars_equal, chars_of, trim, trim_chars};
use vstd::prelude::*;

verus! {

/// Most entries the dictionary holds.
pub const HARD_CAP: usize = 100;

/// Most characters in one phrase.
pub const PHRASE_MAX_CHARS: usize = 80;

/// What kind of term a phrase is.
#[derive(Debug, Clone, Copy, PartialEq, Eq, Structural)]
pub enum DictContext {
    Common,
    Names,
    Technical,
}

impl DictContext {
    /// Token used by the settings screen and the file.
    pub fn as_str(self) -> (s: &'static str)
        ensures
            s@ == context_token(self),
    {
        match self {
            DictContext::Common => "common",
            DictContext::Names => "names",
            DictContext::Technical => "technical",
        }
    }
}

pub open spec fn context_token(c: DictContext) -> Seq<char> {
    match c {
        DictContext::Common => "common"@,
        DictContext::Names => "names"@,
        DictContext::Technical => "technical"@,
    }
}

/// One vocabulary entry.
#[derive(Debug)]
pub struct DictEntry {
    pub phrase: String,
    pub context: DictContext,
}

/// An entry as plain values.
pub struct DictEntryView {
    pub phrase: Seq<char>,
    pub context: DictContext,
}

impl View for DictEntry {
    type V = DictEntryView;

    open spec fn view(&self) -> DictEntryView {
        DictEntryView { phrase: self.phrase@, context: self.context }
    }
}

pub open spec fn entries_view(entries: Seq<DictEntry>) -> Seq<DictEntryView> {
    entries.map_values(|e: DictEntry| e@)
}

/// The dictionary as stored: a schema version and the ordered entries.
#[derive(Debug)]
pub struct DictionaryFile {
    pub version: u32,
    pub entries: Vec<DictEntry>,
}

impl Default for DictionaryFile {
    fn default() -> (f: Self)
        ensures
            f.version == 1,
            f.entries@.len() == 0,
    {
        DictionaryFile { version: 1, entries: Vec::new() }
    }
}

/// The schema version written to new files.
pub fn default_version() -> (v: u32)
    ensures
        v == 1,
{
    1
}

/// Why a candidate phrase was refused.
#[derive(Debug, Clone, Copy, PartialEq, Eq, Structural)]
pub enum DictError {
    /// Nothing is left after trimming.
    Empty,
    /// More than 80 characters after trimming.
    TooLong,
    /// The same phrase is already there.
    Duplicate,
    /// The dictionary already holds 100 entries.
    AtCap,
}

/// Some entry's phrase equals `p`.
pub open spec fn has_phrase(entries: Seq<DictEntryView>, p: Seq<char>) -> bool {
    exists|i: int| 0 <= i < entries.len() && (#[trigger] entries[i]).phrase == p
}

/// The verdict on a candidate phrase, checked in this order: empty, too
/// long, duplicate, dictionary full.
pub open spec fn validation_of(entries: Seq<DictEntryView>, candidate: Seq<char>) -> Result<(), DictError> {
    let t = trim(candidate);
    if t.len() == 0 {
        Err(DictError::Empty)
    } else if t.len() > PHRASE_MAX_CHARS {
        Err(DictError::TooLong)
    } else if has_phrase(entries, t) {
        Err(DictError::Duplicate)
    } else if entries.len() >= HARD_CAP {
        Err(DictError::AtCap)
    } else {
        Ok(())
    }
}

fn find_phrase(entries: &[DictEntry], p: &[char], skip: Option<usize>) -> (found: bool)
    ensures
        found == exists|i: int|
            0 <= i < entries@.len() && Some(i as usize) != skip && (#[trigger] entries@[i]).phrase@
                == p@,
{
    let mut i: usize = 0;
    while i < entries.len()
        invariant
            i <= entries@.len(),
            forall|k: int|
                0 <= k < i && Some(k as usize) != skip ==> (#[trigger] entries@[k]).phrase@ != p@,
        decreases entries@.len() - i,
    {
        let skip_this = match skip {
            Some(s) => s == i,
            None => false,
        };
        if !skip_this {
            let e = chars_of(entries[i].phrase.as_str());
            if chars_equal(e.as_slice(), p) {
                return true;
            }
        }
        i = i + 1;
    }
    false
}

/// Checks a candidate phrase before it is added.
pub fn validate_new(entries: &[DictEntry], candidate: &str) -> (r: Result<(), DictError>)
    ensures
        r == validation_of(entries_view(entries@), candidate@),
{
    let cs = chars_of(candidate);
    let t = trim_chars(cs.as_slice());
    if t.len() == 0 {
        return Err(DictError::Empty);
    }
    if t.len() > PHRASE_MAX_CHARS {
        return Err(DictError::TooLong);
    }
    let dup = find_phrase(entries, t.as_slice(), None);
    proof {
        let ev = entries_view(entries@);
        if dup {
            let i = choose|i: int| 0 <= i < entries@.len() && (#[trigger] entries@[i]).phrase@ == t@;
            assert(ev[i].phrase == t@);
        }
        if has_phrase(ev, t@) {
            let i = choose|i: int| 0 <= i < ev.len() && (#[trigger] ev[i]).phrase == t@;
            assert(entries@[i].phrase@ == t@);
        }
    }
    if dup {
        return Err(DictError::Duplicate);
    }
    if entries.len() >= HARD_CAP {
        return Err(DictError::AtCap);
    }
    Ok(())
}

/// User-facing (Vietnamese) message for a refusal.
pub fn vi_error_msg(e: &DictError) -> (m: &'static str)
    ensures
        m@ == match *e {
            DictError::Empty => "Mục không được rỗng"@,
            DictError::TooLong => "Mục không được dài quá 80 ký tự"@,
            DictError::Duplicate => "Mục đã tồn tại"@,
            DictError::AtCap => "Đã đạt giới hạn 100 mục — xoá mục cũ để thêm mới"@,
        },
{
    match e {
        DictError::Empty => "Mục không được rỗng",
        DictError::TooLong => "Mục không được dài quá 80 ký tự",
        DictError::Duplicate => "Mục đã tồn tại",
        DictError::AtCap => "Đã đạt giới hạn 100 mục — xoá mục cũ để thêm mới",
    }
}

/// The context a settings token names; anything unknown is `Common`.
pub open spec fn context_of(s: Seq<char>) -> DictContext {
    if trim(s) == "names"@ {
        DictContext::Names
    } else if trim(s) == "technical"@ {
        DictContext::Technical
    } else {
        DictContext::Common
    }
}

/// Reads a context token from the settings screen.
pub fn parse_context(s: &str) -> (c: DictContext)
    ensures
        c == context_of(s@),
{
    let cs = chars_of(s);
    let t = trim_chars(cs.as_slice());
    let names = chars_of("names");
    let technical = chars_of("technical");
    if chars_equal(t.as_slice(), names.as_slice()) {
        DictContext::Names
    } else if chars_equal(t.as_slice(), technical.as_slice()) {
        DictContext::Technical
    } else {
        DictContext::Common
    }
}

/// The dictionary's own invariant: at most 100 entries, phrases of at most
/// 80 characters, no phrase twice.
pub open spec fn dictionary_ok(entries: Seq<DictEntryView>) -> bool {
    &&& entries.len() <= HARD_CAP
    &&& forall|i: int| 0 <= i < entries.len() ==> (#[trigger] entries[i]).phrase.len() <= PHRASE_MAX_CHARS
    &&& forall|i: int, j: int|
        0 <= i < j < entries.len() ==> (#[trigger] entries[i]).phrase != (#[trigger] entries[j]).phrase
}

fn copy_entry(e: &DictEntry) -> (c: DictEntry)
    ensures
        c@ == e@,
{
    DictEntry { phrase: e.phrase.clone(), context: e.context }
}

fn truncate_chars(s: &String, n: usize) -> (r: String)
    ensures
        r@ == (if s@.len() > n {
            s@.take(n as int)
        } else {
            s@
        }),
{
    let cs = chars_of(s.as_str());
    if cs.len() <= n {
        return s.clone();
    }
    let mut r = String::new();
    let mut i: usize = 0;
    while i < n
        invariant
            i <= n < cs@.len(),
            cs@ == s@,
            r@ == cs@.take(i as int),
        decreases n - i,
    {
        push_char(&mut r, cs[i]);
        proof {
            assert(r@ =~= cs@.take(i + 1));
        }
        i = i + 1;
    }
    r
}

impl DictionaryFile {
    /// The entries as plain values.
    pub open spec fn spec_entries(&self) -> Seq<DictEntryView> {
        entries_view(self.entries@)
    }

    /// Applies the limits that loading enforces: entries past the 100th
    /// are dropped and phrases are cut to 80 characters.
    pub fn enforce_limits(&mut self)
        ensures
            final(self).version == old(self).version,
            final(self).spec_entries().len() == if old(self).spec_entries().len() > HARD_CAP {
                HARD_CAP as nat
            } else {
                old(self).spec_entries().len()
            },
            forall|i: int|
                0 <= i < final(self).spec_entries().len() ==> {
                    let before = old(self).spec_entries()[i];
                    &&& (#[trigger] final(self).spec_entries()[i]).context == before.context
                    &&& final(self).spec_entries()[i].phrase == if before.phrase.len() > PHRASE_MAX_CHARS {
                        before.phrase.take(PHRASE_MAX_CHARS as int)
                    } else {
                        before.phrase
                    }
                },
    {
        let mut out: Vec<DictEntry> = Vec::new();
        let n = if self.entries.len() > HARD_CAP {
            HARD_CAP
        } else {
            self.entries.len()
        };
        let mut i: usize = 0;
        while i < n
            invariant
                i <= n <= self.entries@.len(),
                n == (if old(self).entries@.len() > HARD_CAP { HARD_CAP as nat } else { old(self).entries@.len() }),
                self.entries@ == old(self).entries@,
                self.version == old(self).version,
                out@.len() == i,
                forall|k: int|
                    0 <= k < i ==> {
                        let before = old(self).entries@[k]@;
                        &&& (#[trigger] out@[k]@).context == before.context
                        &&& out@[k]@.phrase == if before.phrase.len() > PHRASE_MAX_CHARS {
                            before.phrase.take(PHRASE_MAX_CHARS as int)
                        } else {
                            before.phrase
                        }
                    },
            decreases n - i,
        {
            let e = &self.entries[i];
            let p = truncate_chars(&e.phrase, PHRASE_MAX_CHARS);
            out.push(DictEntry { phrase: p, context: e.context });
            i = i + 1;
        }
        self.entries = out;
    }

    /// Adds a phrase (trimmed) with the given context token when it passes
    /// validation; returns the verdict.
    pub fn add(&mut self, candidate: &str, context: &str) -> (r: Result<(), DictError>)
        ensures
            r == validation_of(old(self).spec_entries(), candidate@),
            final(self).version == old(self).version,
            r is Ok ==> final(self).spec_entries() == old(self).spec_entries().push(
                DictEntryView { phrase: trim(candidate@), context: context_of(context@) },
            ),
            r is Err ==> final(self).spec_entries() == old(self).spec_entries(),
    {
        let r = validate_new(self.entries.as_slice(), candidate);
        match r {
            Ok(()) => {
                let cs = chars_of(candidate);
                let t = trim_chars(cs.as_slice());
                let phrase = string_from_chars(t.as_slice());
                let ctx = parse_context(context);
                self.entries.push(DictEntry { phrase, context: ctx });
                proof {
                    assert(self.spec_entries() =~= old(self).spec_entries().push(
                        DictEntryView { phrase: trim(candidate@), context: context_of(context@) },
                    ));
                }
            },
            Err(_) => {},
        }
        r
    }

    /// Removes the entry at `index`, if there is one; true when removed.
    pub fn delete(&mut self, index: usize) -> (changed: bool)
        ensures
            changed == (index < old(self).spec_entries().len()),
            final(self).version == old(self).version,
            changed ==> final(self).spec_entries() == old(self).spec_entries().remove(index as int),
            !changed ==> final(self).spec_entries() == old(self).spec_entries(),
    {
        if index < self.entries.len() {
            let _ = self.entries.remove(index);
            proof {
                assert(self.spec_entries() =~= old(self).spec_entries().remove(index as int));
            }
            true
        } else {
            false
        }
    }

    /// Replaces the entry at `index` by the trimmed phrase and the context
    /// token, when the index exists and the phrase is nonempty, at most 80
    /// characters, and not the phrase of another entry; true when replaced.
    pub fn edit(&mut self, index: usize, new_phrase: &str, new_context: &str) -> (changed: bool)
        ensures
            final(self).version == old(self).version,
            changed == ({
                let t = trim(new_phrase@);
                let es = old(self).spec_entries();
                &&& index < es.len()
                &&& t.len() > 0
                &&& t.len() <= PHRASE_MAX_CHARS
                &&& !(exists|i: int| 0 <= i < es.len() && i != index && (#[trigger] es[i]).phrase == t)
            }),
            changed ==> final(self).spec_entries() == old(self).spec_entries().update(
                index as int,
                DictEntryView { phrase: trim(new_phrase@), context: context_of(new_context@) },
            ),
            !changed ==> final(self).spec_entries() == old(self).spec_entries(),
    {
        let cs = chars_of(new_phrase);
        let t = trim_chars(cs.as_slice());
        if index >= self.entries.len() || t.len() == 0 {
            return false;
        }
        let dup = find_phrase(self.entries.as_slice(), t.as_slice(), Some(index));
        proof {
            let es = old(self).spec_entries();
            if dup {
                let i = choose|i: int| 0 <= i < self.entries@.len() && Some(i as usize) != Some(index) && (#[trigger] self.entries@[i]).phrase@ == t@;
                assert(es[i].phrase == t@);
            }
            if exists|i: int| 0 <= i < es.len() && i != index && (#[trigger] es[i]).phrase == t@ {
                let i = choose|i: int| 0 <= i < es.len() && i != index && (#[trigger] es[i]).phrase == t@;
                assert(self.entries@[i].phrase@ == t@);
            }
        }
        if dup || t.len() > PHRASE_MAX_CHARS {
            return false;
        }
        let phrase = string_from_chars(t.as_slice());
        let ctx = parse_context(new_context);
        self.entries.set(index, DictEntry { phrase, context: ctx });
        proof {
            assert(self.spec_entries() =~= old(self).spec_entries().update(
                index as int,
                DictEntryView { phrase: trim(new_phrase@), context: context_of(new_context@) },
            ));
        }
        true
    }

    fn swap_adjacent(&mut self, i: usize)
        requires
            i + 1 < old(self).entries@.len(),
        ensures
            final(self).version == old(self).version,
            final(self).spec_entries() == old(self).spec_entries().update(
                i as int,
                old(self).spec_entries()[i + 1],
            ).update(i + 1, old(self).spec_entries()[i as int]),
    {
        let _n = self.entries.len();
        let a = copy_entry(&self.entries[i]);
        let b = copy_entry(&self.entries[i + 1]);
        self.entries.set(i, b);
        self.entries.set(i + 1, a);
        proof {
            assert(self.spec_entries() =~= old(self).spec_entries().update(
                i as int,
                old(self).spec_entries()[i + 1],
            ).update(i + 1, old(self).spec_entries()[i as int]));
        }
    }

    /// Moves the entry at `index` one place up; true when it moved.
    pub fn move_up(&mut self, index: usize) -> (changed: bool)
        ensures
            final(self).version == old(self).version,
            changed == (0 < index < old(self).spec_entries().len()),
            changed ==> final(self).spec_entries() == old(self).spec_entries().update(
                index - 1,
                old(self).spec_entries()[index as int],
            ).update(index as int, old(self).spec_entries()[index - 1]),
            !changed ==> final(self).spec_entries() == old(self).spec_entries(),
    {
        if index > 0 && index < self.entries.len() {
            self.swap_adjacent(index - 1);
            true
        } else {
            false
        }
    }

    /// Moves the entry at `index` one place down; true when it moved.
    pub fn move_down(&mut self, index: usize) -> (changed: bool)
        ensures
            final(self).version == old(self).version,
            changed == (index + 1 < old(self).spec_entries().len()),
            changed ==> final(self).spec_entries() == old(self).spec_entries().update(
                index as int,
                old(self).spec_entries()[index + 1],
            ).update(index + 1, old(self).spec_entries()[index as int]),
            !changed ==> final(self).spec_entries() == old(self).spec_entries(),
    {
        if index < self.entries.len() && index + 1 < self.entries.len() {
            self.swap_adjacent(index);
            true
        } else {
            false
        }
    }
}

/// A phrase that passes validation can be added without breaking the
/// dictionary's invariant.
pub proof fn lemma_add_keeps_dictionary_ok(es: Seq<DictEntryView>, candidate: Seq<char>, ctx: DictContext)
    requires
        dictionary_ok(es),
        validation_of(es, candidate) is Ok,
    ensures
        dictionary_ok(es.push(DictEntryView { phrase: trim(candidate), context: ctx })),
{
    let t = trim(candidate);
    let es2 = es.push(DictEntryView { phrase: t, context: ctx });
    assert forall|i: int, j: int| 0 <= i < j < es2.len() implies (#[trigger] es2[i]).phrase != (#[trigger] es2[j]).phrase by {
        if j == es.len() {
            assert(es2[i] == es[i]);
            if es[i].phrase == t {
                assert(has_phrase(es, t));
            }
        } else {
            assert(es2[i] == es[i] && es2[j] == es[j]);
        }
    }
    assert forall|i: int| 0 <= i < es2.len() implies (#[trigger] es2[i]).phrase.len() <= PHRASE_MAX_CHARS by {
        if i < es.len() {
            assert(es2[i] == es[i]);
        }
    }
}

/// An accepted edit keeps the dictionary's invariant.
pub proof fn lemma_edit_keeps_dictionary_ok(es: Seq<DictEntryView>, index: int, t: Seq<char>, ctx: DictContext)
    requires
        dictionary_ok(es),
        0 <= index < es.len(),
        0 < t.len() <= PHRASE_MAX_CHARS,
        !(exists|i: int| 0 <= i < es.len() && i != index && (#[trigger] es[i]).phrase == t),
    ensures
        dictionary_ok(es.update(index, DictEntryView { phrase: t, context: ctx })),
{
    let es2 = es.update(index, DictEntryView { phrase: t, context: ctx });
    assert forall|i: int, j: int| 0 <= i < j < es2.len() implies (#[trigger] es2[i]).phrase != (#[trigger] es2[j]).phrase by {
        if i == index {
            assert(es2[j] == es[j]);
        } else if j == index {
            assert(es2[i] == es[i]);
        } else {
            assert(es2[i] == es[i] && es2[j] == es[j]);
        }
    }
    assert forall|i: int| 0 <= i < es2.len() implies (#[trigger] es2[i]).phrase.len() <= PHRASE_MAX_CHARS by {
        if i != index {
            assert(es2[i] == es[i]);
        }
    }
}

/// Removing an entry, or swapping two neighbours, keeps the dictionary's
/// invariant.
pub proof fn lemma_delete_and_move_keep_dictionary_ok(es: Seq<DictEntryView>, index: int)
    requires
        dictionary_ok(es),
        0 <= index < es.len(),
    ensures
        dictionary_ok(es.remove(index)),
        index + 1 < es.len() ==> dictionary_ok(
            es.update(index, es[index + 1]).update(index + 1, es[index]),
        ),
{
    let r = es.remove(index);
    assert forall|i: int, j: int| 0 <= i < j < r.len() implies (#[trigger] r[i]).phrase != (#[trigger] r[j]).phrase by {
        let a = if i < index { i } else { i + 1 };
        let b = if j < index { j } else { j + 1 };
        assert(r[i] == es[a] && r[j] == es[b]);
    }
    assert forall|i: int| 0 <= i < r.len() implies (#[trigger] r[i]).phrase.len() <= PHRASE_MAX_CHARS by {
        let a = if i < index { i } else { i + 1 };
        assert(r[i] == es[a]);
    }
    if index + 1 < es.len() {
        let s = es.update(index, es[index + 1]).update(index + 1, es[index]);
        let perm = |k: int| if k == index { index + 1 } else if k == index + 1 { index } else { k };
        assert forall|i: int, j: int| 0 <= i < j < s.len() implies (#[trigger] s[i]).phrase != (#[trigger] s[j]).phrase by {
            assert(s[i] == es[perm(i)] && s[j] == es[perm(j)]);
            if perm(i) < perm(j) {
            } else {
                assert(es[perm(j)].phrase != es[perm(i)].phrase);
            }
        }
        assert forall|i: int| 0 <= i < s.len() implies (#[trigger] s[i]).phrase.len() <= PHRASE_MAX_CHARS by {
            assert(s[i] == es[perm(i)]);
        }
    }
}

} // verus!
