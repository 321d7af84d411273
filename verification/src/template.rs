//! Command templates: whitespace-separated fields with placeholders that are
//! replaced by bound values after the template has been split into fields.

use vstd::prelude::*;
use vstd::string::*;

verus! {

/// Whether `c` separates the fields of a command template: the characters
/// that Unicode marks as `White_Space`.
pub open spec fn is_space(c: char) -> bool {
    let n = c as u32;
    ||| 0x09 <= n <= 0x0d
    ||| n == 0x20
    ||| n == 0x85
    ||| n == 0xa0
    ||| n == 0x1680
    ||| 0x2000 <= n <= 0x200a
    ||| n == 0x2028
    ||| n == 0x2029
    ||| n == 0x202f
    ||| n == 0x205f
    ||| n == 0x3000
}

/// Executable form of [`is_space`].
pub fn is_space_char(c: char) -> (r: bool)
    ensures
        r == is_space(c),
{
    let n: u32 = c as u32;
    (0x09 <= n && n <= 0x0d) || n == 0x20 || n == 0x85 || n == 0xa0 || n == 0x1680 || (0x2000 <= n
        && n <= 0x200a) || n == 0x2028 || n == 0x2029 || n == 0x202f || n == 0x205f || n == 0x3000
}

/// The characters of `s`, in order.
pub fn chars_of(s: &str) -> (v: Vec<char>)
    ensures
        v@ == s@,
{
    let mut v: Vec<char> = Vec::new();
    for c in it: s.chars()
        invariant
            it.seq() == s@,
            v@ == s@.take(it.index()),
    {
        v.push(c);
    }
    v
}

/// Length of the run of non-separator characters at the start of `s`.
pub open spec fn field_len(s: Seq<char>) -> nat
    decreases s.len(),
{
    if s.len() == 0 || is_space(s[0]) {
        0
    } else {
        1 + field_len(s.skip(1))
    }
}

/// The fields of a template: its maximal runs of non-separator characters,
/// from left to right.
pub open spec fn fields(s: Seq<char>) -> Seq<Seq<char>>
    decreases s.len(),
    via fields_terminates
{
    if s.len() == 0 {
        Seq::empty()
    } else if is_space(s[0]) {
        fields(s.skip(1))
    } else {
        seq![s.take(field_len(s) as int)] + fields(s.skip(field_len(s) as int))
    }
}

#[via_fn]
proof fn fields_terminates(s: Seq<char>) {
    lemma_field_len(s);
}

/// `field_len(s)` is the first position of `s` that holds a separator, or the
/// length of `s` where there is none.
pub proof fn lemma_field_len(s: Seq<char>)
    ensures
        field_len(s) <= s.len(),
        forall|i: int| 0 <= i < field_len(s) ==> !is_space(#[trigger] s[i]),
        field_len(s) < s.len() ==> is_space(s[field_len(s) as int]),
        s.len() > 0 && !is_space(s[0]) ==> field_len(s) > 0,
    decreases s.len(),
{
    if s.len() != 0 && !is_space(s[0]) {
        let rest = s.skip(1);
        lemma_field_len(rest);
        assert forall|i: int| 0 <= i < field_len(s) implies !is_space(#[trigger] s[i]) by {
            if i > 0 {
                assert(s[i] == rest[i - 1]);
            }
        }
        if field_len(s) < s.len() {
            assert(s[field_len(s) as int] == rest[field_len(rest) as int]);
        }
    }
}

/// The converse of [`lemma_field_len`]: a position of that kind is
/// `field_len(s)`.
pub proof fn lemma_field_len_unique(s: Seq<char>, k: int)
    requires
        0 <= k <= s.len(),
        forall|i: int| 0 <= i < k ==> !is_space(#[trigger] s[i]),
        k < s.len() ==> is_space(s[k]),
    ensures
        field_len(s) == k,
    decreases s.len(),
{
    if k > 0 {
        let rest = s.skip(1);
        assert(!is_space(s[0]));
        assert forall|i: int| 0 <= i < k - 1 implies !is_space(#[trigger] rest[i]) by {
            assert(rest[i] == s[i + 1]);
        }
        lemma_field_len_unique(rest, k - 1);
    }
}

/// A word: a non-empty text without separators.
pub open spec fn is_word(w: Seq<char>) -> bool {
    w.len() > 0 && forall|i: int| 0 <= i < w.len() ==> !is_space(#[trigger] w[i])
}

/// Every field of a template is a word.
pub proof fn lemma_fields_are_words(s: Seq<char>)
    ensures
        forall|k: int| 0 <= k < fields(s).len() ==> is_word(#[trigger] fields(s)[k]),
    decreases s.len(),
{
    if s.len() == 0 {
        assert(fields(s).len() == 0);
    } else if is_space(s[0]) {
        lemma_fields_are_words(s.skip(1));
        assert(fields(s) == fields(s.skip(1)));
    } else {
        lemma_field_len(s);
        let n = field_len(s) as int;
        let head = s.take(n);
        let tail = fields(s.skip(n));
        lemma_fields_are_words(s.skip(n));
        assert(fields(s) == seq![head] + tail);
        assert(is_word(head)) by {
            assert forall|i: int| 0 <= i < head.len() implies !is_space(#[trigger] head[i]) by {
                assert(head[i] == s[i]);
            }
        }
        assert forall|k: int| 0 <= k < fields(s).len() implies is_word(#[trigger] fields(s)[k]) by {
            if k == 0 {
                assert(fields(s)[0] == head);
            } else {
                assert(fields(s)[k] == tail[k - 1]);
            }
        }
    }
}

/// The test that keeps the characters which are no separators.
pub open spec fn not_space() -> spec_fn(char) -> bool {
    |c: char| !is_space(c)
}

/// A text without separators passes the test whole.
proof fn lemma_word_is_kept(w: Seq<char>)
    requires
        forall|i: int| 0 <= i < w.len() ==> !is_space(#[trigger] w[i]),
    ensures
        w.filter(not_space()) == w,
    decreases w.len(),
{
    reveal(Seq::filter);
    if w.len() > 0 {
        lemma_word_is_kept(w.drop_last());
        assert(not_space()(w.last()));
        assert(w.drop_last().push(w.last()) =~= w);
    }
}

/// The fields, one after the other, are the template without its
/// separators: splitting loses no other character and changes no order.
pub proof fn lemma_fields_cover(s: Seq<char>)
    ensures
        fields(s).flatten() == s.filter(not_space()),
    decreases s.len(),
{
    reveal(Seq::filter);
    if s.len() == 0 {
        assert(fields(s).flatten() =~= Seq::<char>::empty());
    } else if is_space(s[0]) {
        let first = seq![s[0]];
        lemma_fields_cover(s.skip(1));
        assert(fields(s) == fields(s.skip(1)));
        assert(first + s.skip(1) =~= s);
        Seq::filter_distributes_over_add(first, s.skip(1), not_space());
        assert(first.drop_last() =~= Seq::<char>::empty());
        assert(Seq::<char>::empty().filter(not_space()) =~= Seq::<char>::empty());
        assert(!not_space()(first.last()));
        assert(first.filter(not_space()) =~= Seq::<char>::empty());
        assert(Seq::<char>::empty() + s.skip(1).filter(not_space()) =~= s.skip(1).filter(
            not_space(),
        ));
    } else {
        lemma_field_len(s);
        let n = field_len(s) as int;
        let head = s.take(n);
        let tail = s.skip(n);
        lemma_fields_cover(tail);
        assert(fields(s) == seq![head] + fields(tail));
        assert(head + tail =~= s);
        Seq::filter_distributes_over_add(head, tail, not_space());
        assert forall|i: int| 0 <= i < head.len() implies !is_space(#[trigger] head[i]) by {
            assert(head[i] == s[i]);
        }
        lemma_word_is_kept(head);
        vstd::seq_lib::lemma_flatten_concat(seq![head], fields(tail));
        seq![head].lemma_flatten_one_element();
        assert(seq![head].first() == head);
    }
}

/// What a vector of strings holds after one more string was pushed.
proof fn lemma_pushed(before: Vec<String>, after: Vec<String>, last: String)
    requires
        after@ == before@.push(last),
    ensures
        after.deep_view() == before.deep_view().push(last@),
{
    assert(after.deep_view() =~= before.deep_view().push(last@));
}

/// Splits a template into its fields.
pub fn split_fields(template: &str) -> (out: Vec<String>)
    ensures
        out.deep_view() == fields(template@),
{
    let chars = chars_of(template);
    let n: usize = chars.len();
    let ghost s = template@;
    let mut out: Vec<String> = Vec::new();
    let mut i: usize = 0;
    assert(s.skip(0) =~= s);
    assert(out.deep_view() =~= Seq::<Seq<char>>::empty());
    while i < n
        invariant
            s == template@,
            chars@ == s,
            n == s.len(),
            i <= n,
            fields(s) == out.deep_view() + fields(s.skip(i as int)),
        decreases n - i,
    {
        let ghost rest = s.skip(i as int);
        if is_space_char(chars[i]) {
            assert(rest.skip(1) =~= s.skip(i + 1));
            i += 1;
        } else {
            let mut j: usize = i + 1;
            while j < n && !is_space_char(chars[j])
                invariant
                    chars@ == s,
                    n == s.len(),
                    i < j <= n,
                    forall|k: int| i <= k < j ==> !is_space(#[trigger] s[k]),
                decreases n - j,
            {
                j += 1;
            }
            proof {
                assert forall|k: int| 0 <= k < j - i implies !is_space(#[trigger] rest[k]) by {
                    assert(rest[k] == s[i + k]);
                }
                lemma_field_len_unique(rest, j - i);
                assert(rest.take(j - i) =~= s.subrange(i as int, j as int));
                assert(rest.skip(j - i) =~= s.skip(j as int));
            }
            let field = String::from_str(template.substring_char(i, j));
            let ghost before = out;
            out.push(field);
            proof {
                lemma_pushed(before, out, field);
                assert(out.deep_view() + fields(s.skip(j as int)) =~= before.deep_view() + (
                seq![field@] + fields(s.skip(j as int))));
            }
            i = j;
        }
    }
    assert(fields(s.skip(n as int)) =~= Seq::<Seq<char>>::empty());
    assert(out.deep_view() + Seq::<Seq<char>>::empty() =~= out.deep_view());
    out
}

/// The placeholder for the path of the source file.
pub open spec fn source_key() -> Seq<char> {
    "{sourceFile}"@
}

/// The placeholder for the path of the file that the execute stage runs.
pub open spec fn target_key() -> Seq<char> {
    "{targetFile}"@
}

/// The placeholder for the flags of a request.
pub open spec fn flags_key() -> Seq<char> {
    "{flags}"@
}

/// Whether `p` is one of the three placeholders.
pub open spec fn is_key(p: Seq<char>) -> bool {
    p == source_key() || p == target_key() || p == flags_key()
}

/// The shape of the placeholders: each opens with a brace, closes with one,
/// and differs from the others in its second character.
pub proof fn lemma_keys()
    ensures
        source_key().len() == 12,
        target_key().len() == 12,
        flags_key().len() == 7,
        forall|p: Seq<char>| #[trigger]
            is_key(p) ==> p.len() >= 7 && p[0] == '{' && p[p.len() - 1] == '}' && forall|i: int|
                0 < i < p.len() - 1 ==> p[i] != '{' && p[i] != '}',
        source_key()[1] == 's',
        target_key()[1] == 't',
        flags_key()[1] == 'f',
{
    reveal_strlit("{sourceFile}");
    reveal_strlit("{targetFile}");
    reveal_strlit("{flags}");
}

/// The values that the placeholders stand for.
pub struct Bindings {
    /// Replaces `{sourceFile}`.
    pub source_file: String,
    /// Replaces `{targetFile}`.
    pub target_file: String,
    /// Replaces `{flags}`; `None` where the request gave no flags.
    pub flags: Option<String>,
}

/// The model of [`Bindings`].
pub struct BindingsView {
    pub source_file: Seq<char>,
    pub target_file: Seq<char>,
    pub flags: Option<Seq<char>>,
}

impl BindingsView {
    /// The text that stands in place of `{flags}`.
    pub open spec fn flags_text(self) -> Seq<char> {
        match self.flags {
            Some(f) => f,
            None => Seq::empty(),
        }
    }
}

impl View for Bindings {
    type V = BindingsView;

    open spec fn view(&self) -> BindingsView {
        BindingsView {
            source_file: self.source_file@,
            target_file: self.target_file@,
            flags: match self.flags {
                Some(f) => Some(f@),
                None => None,
            },
        }
    }
}

/// A field after substitution: every placeholder in it, from left to right,
/// gives way to its bound value. The values themselves are not read again.
pub open spec fn substitute(f: Seq<char>, b: BindingsView) -> Seq<char>
    decreases f.len(),
    via substitute_terminates
{
    if f.len() == 0 {
        f
    } else if source_key().is_prefix_of(f) {
        b.source_file + substitute(f.skip(source_key().len() as int), b)
    } else if target_key().is_prefix_of(f) {
        b.target_file + substitute(f.skip(target_key().len() as int), b)
    } else if flags_key().is_prefix_of(f) {
        b.flags_text() + substitute(f.skip(flags_key().len() as int), b)
    } else {
        seq![f[0]] + substitute(f.skip(1), b)
    }
}

#[via_fn]
proof fn substitute_terminates(f: Seq<char>, b: BindingsView) {
    lemma_keys();
}

/// Whether the placeholder `key` occurs somewhere in `f`.
pub open spec fn mentions(f: Seq<char>, key: Seq<char>) -> bool {
    exists|i: int| 0 <= i <= f.len() && key.is_prefix_of(#[trigger] f.skip(i))
}

/// The argument that a field gives: none where the field asks for flags and
/// the request gave none, else the field after substitution.
pub open spec fn expand_field(f: Seq<char>, b: BindingsView) -> Option<Seq<char>> {
    if b.flags is None && mentions(f, flags_key()) {
        None
    } else {
        Some(substitute(f, b))
    }
}

/// The arguments that a list of fields gives, in the order of the fields.
pub open spec fn expand_fields(fs: Seq<Seq<char>>, b: BindingsView) -> Seq<Seq<char>>
    decreases fs.len(),
{
    if fs.len() == 0 {
        Seq::empty()
    } else {
        let init = expand_fields(fs.drop_last(), b);
        match expand_field(fs.last(), b) {
            Some(a) => init.push(a),
            None => init,
        }
    }
}

/// The argument vector of a template: the template is split into fields
/// first, and each field is then expanded on its own.
pub open spec fn expansion(template: Seq<char>, b: BindingsView) -> Seq<Seq<char>> {
    expand_fields(fields(template), b)
}

/// Whether `key` stands in `hay` at position `at`.
fn begins_with(hay: &Vec<char>, at: usize, key: &Vec<char>) -> (r: bool)
    requires
        at <= hay.len(),
    ensures
        r == key@.is_prefix_of(hay@.skip(at as int)),
{
    let ghost rest = hay@.skip(at as int);
    if key.len() > hay.len() - at {
        return false;
    }
    let mut k: usize = 0;
    while k < key.len()
        invariant
            at + key.len() <= hay.len(),
            k <= key.len(),
            rest == hay@.skip(at as int),
            forall|m: int| 0 <= m < k ==> key@[m] == rest[m],
        decreases key.len() - k,
    {
        if hay[at + k] != key[k] {
            assert(rest.subrange(0, key@.len() as int)[k as int] != key@[k as int]);
            return false;
        }
        k += 1;
    }
    assert(key@ =~= rest.subrange(0, key@.len() as int));
    true
}

/// Whether `key` occurs in `hay`.
fn occurs_in(hay: &Vec<char>, key: &Vec<char>) -> (r: bool)
    ensures
        r == mentions(hay@, key@),
{
    let mut i: usize = 0;
    while i <= hay.len()
        invariant
            i <= hay.len() + 1,
            forall|m: int| 0 <= m < i ==> !key@.is_prefix_of(#[trigger] hay@.skip(m)),
        decreases hay.len() + 1 - i,
    {
        if begins_with(hay, i, key) {
            return true;
        }
        if i == hay.len() {
            return false;
        }
        i += 1;
    }
    false
}

/// The three placeholders as characters.
struct Keys {
    source: Vec<char>,
    target: Vec<char>,
    flags: Vec<char>,
}

impl Keys {
    spec fn wf(&self) -> bool {
        self.source@ == source_key() && self.target@ == target_key() && self.flags@ == flags_key()
    }

    fn new() -> (keys: Keys)
        ensures
            keys.wf(),
    {
        Keys {
            source: chars_of("{sourceFile}"),
            target: chars_of("{targetFile}"),
            flags: chars_of("{flags}"),
        }
    }
}

/// Substitutes in one field.
fn substitute_field(field: &str, bindings: &Bindings, keys: &Keys) -> (out: String)
    requires
        keys.wf(),
    ensures
        out@ == substitute(field@, bindings@),
{
    let chars = chars_of(field);
    let n: usize = chars.len();
    let ghost f = field@;
    let ghost b = bindings@;
    let mut out = String::new();
    let mut start: usize = 0;
    let mut i: usize = 0;
    proof {
        lemma_keys();
        assert(f.skip(0) =~= f);
        assert(out@ + f.subrange(0, 0) + substitute(f, b) =~= substitute(f, b));
    }
    while i < n
        invariant
            keys.wf(),
            f == field@,
            b == bindings@,
            chars@ == f,
            n == f.len(),
            start <= i <= n,
            substitute(f, b) == out@ + f.subrange(start as int, i as int) + substitute(
                f.skip(i as int),
                b,
            ),
        decreases n - i,
    {
        let ghost rest = f.skip(i as int);
        let ghost pending = f.subrange(start as int, i as int);
        let ghost before = out@;
        proof {
            lemma_keys();
        }
        if begins_with(&chars, i, &keys.source) {
            out.append(field.substring_char(start, i));
            out.append(bindings.source_file.as_str());
            i += keys.source.len();
            start = i;
            proof {
                assert(rest.skip(source_key().len() as int) =~= f.skip(i as int));
                assert(out@ + f.subrange(start as int, i as int) + substitute(f.skip(i as int), b)
                    =~= before + pending + (b.source_file + substitute(
                    rest.skip(source_key().len() as int),
                    b,
                )));
            }
        } else if begins_with(&chars, i, &keys.target) {
            out.append(field.substring_char(start, i));
            out.append(bindings.target_file.as_str());
            i += keys.target.len();
            start = i;
            proof {
                assert(rest.skip(target_key().len() as int) =~= f.skip(i as int));
                assert(out@ + f.subrange(start as int, i as int) + substitute(f.skip(i as int), b)
                    =~= before + pending + (b.target_file + substitute(
                    rest.skip(target_key().len() as int),
                    b,
                )));
            }
        } else if begins_with(&chars, i, &keys.flags) {
            out.append(field.substring_char(start, i));
            match &bindings.flags {
                Some(flags) => {
                    out.append(flags.as_str());
                },
                None => {},
            }
            i += keys.flags.len();
            start = i;
            proof {
                assert(rest.skip(flags_key().len() as int) =~= f.skip(i as int));
                assert(out@ =~= before + pending + b.flags_text());
                assert(out@ + f.subrange(start as int, i as int) + substitute(f.skip(i as int), b)
                    =~= before + pending + (b.flags_text() + substitute(
                    rest.skip(flags_key().len() as int),
                    b,
                )));
            }
        } else {
            i += 1;
            proof {
                assert(rest.skip(1) =~= f.skip(i as int));
                assert(f.subrange(start as int, i as int) =~= pending + seq![rest[0]]);
                assert(out@ + f.subrange(start as int, i as int) + substitute(f.skip(i as int), b)
                    =~= before + pending + (seq![rest[0]] + substitute(rest.skip(1), b)));
            }
        }
    }
    let ghost before = out@;
    out.append(field.substring_char(start, n));
    proof {
        assert(f.skip(n as int) =~= Seq::<char>::empty());
        assert(out@ =~= before + f.subrange(start as int, n as int) + substitute(
            f.skip(n as int),
            b,
        ));
    }
    out
}

/// Expands a command template into an argument vector.
///
/// The template is split into fields before anything is substituted, so a
/// bound value becomes part of exactly one argument, whatever it holds. A
/// field that asks for flags is left out where the bindings hold none.
pub fn expand(template: &str, bindings: &Bindings) -> (argv: Vec<String>)
    ensures
        argv.deep_view() == expansion(template@, bindings@),
{
    let fs = split_fields(template);
    let keys = Keys::new();
    let ghost b = bindings@;
    let ghost all = fs.deep_view();
    let mut argv: Vec<String> = Vec::new();
    let mut k: usize = 0;
    assert(argv.deep_view() =~= Seq::<Seq<char>>::empty());
    assert(all.take(0) =~= Seq::<Seq<char>>::empty());
    while k < fs.len()
        invariant
            keys.wf(),
            b == bindings@,
            all == fs.deep_view(),
            all == fields(template@),
            k <= fs.len(),
            argv.deep_view() == expand_fields(all.take(k as int), b),
        decreases fs.len() - k,
    {
        let field = fs[k].as_str();
        let chars = chars_of(field);
        proof {
            assert(all.take(k + 1).drop_last() =~= all.take(k as int));
            assert(all.take(k + 1).last() == field@);
        }
        if bindings.flags.is_none() && occurs_in(&chars, &keys.flags) {
        } else {
            let arg = substitute_field(field, bindings, &keys);
            let ghost before = argv;
            argv.push(arg);
            proof {
                lemma_pushed(before, argv, arg);
            }
        }
        k += 1;
    }
    assert(all.take(fs.len() as int) =~= all);
    argv
}

/// Whether `c` is an opening or a closing brace.
pub open spec fn is_brace(c: char) -> bool {
    c == '{' || c == '}'
}

/// Whether `s` holds no brace.
pub open spec fn brace_free(s: Seq<char>) -> bool {
    forall|i: int| 0 <= i < s.len() ==> !is_brace(#[trigger] s[i])
}

/// Whether a field is well formed: it holds no brace at all, or exactly one
/// placeholder and no brace outside it.
pub open spec fn valid_field(f: Seq<char>) -> bool {
    brace_free(f) || exists|i: int, j: int|
        0 <= i <= j <= f.len() && is_key(#[trigger] f.subrange(i, j)) && brace_free(f.take(i))
            && brace_free(f.skip(j))
}

/// Whether every field of a template is well formed.
pub open spec fn valid_template(t: Seq<char>) -> bool {
    forall|k: int| 0 <= k < fields(t).len() ==> valid_field(#[trigger] fields(t)[k])
}

/// The value bound to the placeholder `key`.
pub open spec fn bound_value(key: Seq<char>, b: BindingsView) -> Seq<char> {
    if key == source_key() {
        b.source_file
    } else if key == target_key() {
        b.target_file
    } else {
        b.flags_text()
    }
}

/// No placeholder starts at a character that is not an opening brace.
proof fn lemma_no_key_here(f: Seq<char>)
    requires
        f.len() > 0,
        f[0] != '{',
    ensures
        forall|key: Seq<char>| is_key(key) ==> !#[trigger] key.is_prefix_of(f),
{
    lemma_keys();
    assert forall|key: Seq<char>| is_key(key) implies !#[trigger] key.is_prefix_of(f) by {
        if key.is_prefix_of(f) {
            assert(f.subrange(0, key.len() as int)[0] == key[0]);
        }
    }
}

/// At most one placeholder starts at a given position.
proof fn lemma_key_here_unique(f: Seq<char>, key: Seq<char>, other: Seq<char>)
    requires
        is_key(key),
        is_key(other),
        key.is_prefix_of(f),
        other.is_prefix_of(f),
    ensures
        key == other,
{
    lemma_keys();
    assert(f.subrange(0, key.len() as int)[1] == key[1]);
    assert(f.subrange(0, other.len() as int)[1] == other[1]);
}

/// A field without braces is left as it is.
pub proof fn lemma_substitute_plain(f: Seq<char>, b: BindingsView)
    requires
        brace_free(f),
    ensures
        substitute(f, b) == f,
    decreases f.len(),
{
    if f.len() > 0 {
        assert(!is_brace(f[0]));
        lemma_no_key_here(f);
        let rest = f.skip(1);
        assert forall|i: int| 0 <= i < rest.len() implies !is_brace(#[trigger] rest[i]) by {
            assert(rest[i] == f[i + 1]);
        }
        lemma_substitute_plain(rest, b);
        assert(seq![f[0]] + rest =~= f);
    }
}

/// In a well-formed field with a placeholder at `[i, j)`, the bound value
/// takes the placeholder's place and the rest of the field stays: nothing of
/// the template's own braces is left, and the value is not read again.
pub proof fn lemma_substitute_valid(f: Seq<char>, b: BindingsView, i: int, j: int)
    requires
        0 <= i <= j <= f.len(),
        is_key(f.subrange(i, j)),
        brace_free(f.take(i)),
        brace_free(f.skip(j)),
    ensures
        substitute(f, b) == f.take(i) + bound_value(f.subrange(i, j), b) + f.skip(j),
    decreases i,
{
    lemma_keys();
    let key = f.subrange(i, j);
    if i == 0 {
        assert(key.is_prefix_of(f));
        assert(f.skip(key.len() as int) == f.skip(j));
        lemma_substitute_plain(f.skip(j), b);
        if source_key().is_prefix_of(f) {
            lemma_key_here_unique(f, key, source_key());
        } else if target_key().is_prefix_of(f) {
            lemma_key_here_unique(f, key, target_key());
        }
        assert(f.take(0) + bound_value(key, b) + f.skip(j) =~= bound_value(key, b) + f.skip(j));
    } else {
        let rest = f.skip(1);
        assert(f.take(i)[0] == f[0]);
        assert(!is_brace(f[0]));
        lemma_no_key_here(f);
        assert(rest.subrange(i - 1, j - 1) =~= key);
        assert forall|k: int| 0 <= k < rest.take(i - 1).len() implies !is_brace(
            #[trigger] rest.take(i - 1)[k],
        ) by {
            assert(rest.take(i - 1)[k] == f.take(i)[k + 1]);
        }
        assert(rest.skip(j - 1) =~= f.skip(j));
        lemma_substitute_valid(rest, b, i - 1, j - 1);
        assert(seq![f[0]] + (rest.take(i - 1) + bound_value(key, b) + f.skip(j)) =~= f.take(i)
            + bound_value(key, b) + f.skip(j));
    }
}

/// An argument vector never holds more arguments than the template has
/// fields, whatever the bound values hold.
pub proof fn lemma_expansion_len(fs: Seq<Seq<char>>, b: BindingsView)
    ensures
        expand_fields(fs, b).len() <= fs.len(),
    decreases fs.len(),
{
    if fs.len() > 0 {
        lemma_expansion_len(fs.drop_last(), b);
    }
}

/// With flags bound, every field gives exactly one argument: the field after
/// substitution. No bound value is ever split into several arguments.
pub proof fn lemma_one_argument_per_field(fs: Seq<Seq<char>>, b: BindingsView)
    requires
        b.flags is Some,
    ensures
        expand_fields(fs, b).len() == fs.len(),
        forall|k: int| 0 <= k < fs.len() ==> #[trigger] expand_fields(fs, b)[k] == substitute(fs[k], b),
    decreases fs.len(),
{
    if fs.len() > 0 {
        lemma_one_argument_per_field(fs.drop_last(), b);
        assert forall|k: int| 0 <= k < fs.len() implies #[trigger] expand_fields(fs, b)[k]
            == substitute(fs[k], b) by {
            if k < fs.len() - 1 {
                assert(fs.drop_last()[k] == fs[k]);
            }
        }
    }
}

/// Flags are one argument: where a field is the flags placeholder alone, the
/// argument in its place is the bound text, whole, spaces included.
pub proof fn lemma_flags_stay_whole(template: Seq<char>, b: BindingsView, k: int)
    requires
        b.flags is Some,
        0 <= k < fields(template).len(),
        fields(template)[k] == flags_key(),
    ensures
        expansion(template, b).len() == fields(template).len(),
        expansion(template, b)[k] == b.flags->0,
{
    let f = fields(template)[k];
    lemma_keys();
    lemma_one_argument_per_field(fields(template), b);
    assert(f.subrange(0, f.len() as int) =~= f);
    lemma_substitute_valid(f, b, 0, f.len() as int);
    assert(f.take(0) + b.flags_text() + f.skip(f.len() as int) =~= b.flags_text());
}

/// The first position at or after `from` that holds a brace.
fn first_brace(chars: &Vec<char>, from: usize) -> (r: usize)
    requires
        from <= chars.len(),
    ensures
        from <= r <= chars.len(),
        forall|k: int| from <= k < r ==> !is_brace(#[trigger] chars@[k]),
        r < chars.len() ==> is_brace(chars@[r as int]),
{
    let mut r: usize = from;
    while r < chars.len() && chars[r] != '{' && chars[r] != '}'
        invariant
            from <= r <= chars.len(),
            forall|k: int| from <= k < r ==> !is_brace(#[trigger] chars@[k]),
        decreases chars.len() - r,
    {
        r += 1;
    }
    r
}

/// Checks one field.
fn is_valid_field(chars: &Vec<char>, keys: &Keys) -> (r: bool)
    requires
        keys.wf(),
    ensures
        r == valid_field(chars@),
{
    let ghost f = chars@;
    let n: usize = chars.len();
    let i: usize = first_brace(chars, 0);
    if i == n {
        return true;
    }
    let ghost rest = f.skip(i as int);
    proof {
        lemma_keys();
        assert(is_brace(f[i as int]));
        assert(!brace_free(f));
        // A witness of validity has its placeholder at the first brace.
        assert forall|a: int, z: int|
            0 <= a <= z <= f.len() && is_key(#[trigger] f.subrange(a, z)) && brace_free(f.take(a))
                && brace_free(f.skip(z)) implies a == i && f.subrange(a, z).is_prefix_of(rest) by {
            let key = f.subrange(a, z);
            assert(key[0] == f[a]);
            if a < i {
                assert(!is_brace(f[a]));
            }
            if i < a {
                assert(f.take(a)[i as int] == f[i as int]);
            }
            assert(key =~= rest.subrange(0, key.len() as int));
        }
    }
    let len: usize = if begins_with(chars, i, &keys.source) {
        keys.source.len()
    } else if begins_with(chars, i, &keys.target) {
        keys.target.len()
    } else if begins_with(chars, i, &keys.flags) {
        keys.flags.len()
    } else {
        proof {
            assert forall|a: int, z: int|
                0 <= a <= z <= f.len() && is_key(#[trigger] f.subrange(a, z)) && brace_free(
                    f.take(a),
                ) && brace_free(f.skip(z)) implies false by {
                assert(f.subrange(a, z).is_prefix_of(rest));
            }
        }
        return false;
    };
    let j: usize = i + len;
    let ghost key = f.subrange(i as int, j as int);
    proof {
        assert(key =~= rest.subrange(0, len as int));
        assert(is_key(key));
        assert forall|k: int| 0 <= k < f.take(i as int).len() implies !is_brace(
            #[trigger] f.take(i as int)[k],
        ) by {
            assert(f.take(i as int)[k] == f[k]);
        }
    }
    let end: usize = first_brace(chars, j);
    proof {
        if end == n {
            assert forall|k: int| 0 <= k < f.skip(j as int).len() implies !is_brace(
                #[trigger] f.skip(j as int)[k],
            ) by {
                assert(f.skip(j as int)[k] == f[j + k]);
            }
        } else {
            assert forall|a: int, z: int|
                0 <= a <= z <= f.len() && is_key(#[trigger] f.subrange(a, z)) && brace_free(
                    f.take(a),
                ) && brace_free(f.skip(z)) implies false by {
                lemma_key_here_unique(rest, key, f.subrange(a, z));
                assert(z == j);
                assert(f.skip(z)[end - j] == f[end as int]);
            }
        }
    }
    end == n
}

/// Checks a template as a profile is loaded: every field holds at most one
/// placeholder, spelled exactly, and no brace besides.
pub fn is_valid_template(template: &str) -> (r: bool)
    ensures
        r == valid_template(template@),
{
    let fs = split_fields(template);
    let keys = Keys::new();
    let mut k: usize = 0;
    while k < fs.len()
        invariant
            keys.wf(),
            fs.deep_view() == fields(template@),
            k <= fs.len(),
            forall|m: int| 0 <= m < k ==> valid_field(#[trigger] fields(template@)[m]),
        decreases fs.len() - k,
    {
        let chars = chars_of(fs[k].as_str());
        assert(chars@ == fs.deep_view()[k as int]);
        if !is_valid_field(&chars, &keys) {
            return false;
        }
        k += 1;
    }
    true
}

} // verus!
