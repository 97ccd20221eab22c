use vstd::prelude::*;
use vstd::string::StrSliceExecFns;

use crate::model::FunctionSymbol;
use crate::output::push_char;

verus! {

/// True of characters that the mangler passes through unchanged: ASCII
/// letters, the underscore, and — outside the leading position — ASCII
/// digits.
pub open spec fn passes_through(c: char, leading: bool) -> bool {
    ||| 97 <= c as u32 <= 122
    ||| 65 <= c as u32 <= 90
    ||| c == '_'
    ||| (!leading && 48 <= c as u32 <= 57)
}

/// The character for one decimal digit.
pub open spec fn decimal_digit_char(d: int) -> char
    recommends
        0 <= d < 10,
{
    ((48 + d) as u8) as char
}

/// Big-endian decimal digits of `v`, without leading zeros (zero gives one
/// `0` digit).
pub open spec fn decimal_digits(v: int) -> Seq<char>
    recommends
        0 <= v,
    decreases v,
{
    if v < 10 {
        seq![decimal_digit_char(v)]
    } else {
        decimal_digits(v / 10).push(decimal_digit_char(v % 10))
    }
}

/// The escape of one character: passed through where allowed, otherwise the
/// literal `u` followed by the character's decimal code point, zero-padded
/// to at least two digits.
pub open spec fn escaped_char(c: char, leading: bool) -> Seq<char> {
    if passes_through(c, leading) {
        seq![c]
    } else if (c as u32) < 10 {
        seq!['u', '0'] + decimal_digits(c as u32 as int)
    } else {
        seq!['u'] + decimal_digits(c as u32 as int)
    }
}

/// The escape of the first `k` characters of `s`; only the character at
/// index zero counts as leading.
pub open spec fn escaped_prefix(s: Seq<char>, k: int) -> Seq<char>
    decreases k,
{
    if k <= 0 {
        Seq::empty()
    } else {
        escaped_prefix(s, k - 1) + escaped_char(s[k - 1], k - 1 == 0)
    }
}

/// The mangler's escape of one whole name.
pub open spec fn escaped(s: Seq<char>) -> Seq<char> {
    escaped_prefix(s, s.len() as int)
}

/// The decimal renderings of the first `k` version components, each followed
/// by an underscore.
pub open spec fn version_prefix(v: Seq<u32>, k: int) -> Seq<char>
    decreases k,
{
    if k <= 0 {
        Seq::empty()
    } else {
        version_prefix(v, k - 1) + decimal_digits(v[k - 1] as int) + seq!['_']
    }
}

/// The rendering of a whole version-component sequence.
pub open spec fn version_text(v: Seq<u32>) -> Seq<char> {
    version_prefix(v, v.len() as int)
}

/// The mangled label of a symbol identity: the escaped module name, an
/// underscore, the version components each followed by an underscore, and
/// the escaped exported name. A pure function of the identity, so the same
/// identity always yields identical label text.
pub open spec fn mangled(module_name: Seq<char>, version: Seq<u32>, symbol: Seq<char>) -> Seq<
    char,
> {
    escaped(module_name) + seq!['_'] + version_text(version) + escaped(symbol)
}

/// The mangled label of a function symbol.
pub open spec fn symbol_label(s: FunctionSymbol) -> Seq<char> {
    mangled(s.module_name@, s.module_version@, s.symbol@)
}

/// Appends the decimal digits of `v` to `out`.
pub(crate) fn push_decimal(out: &mut String, v: u32)
    ensures
        final(out)@ == old(out)@ + decimal_digits(v as int),
    decreases v,
{
    if v < 10 {
        let c: char = (48 + v as u8) as char;
        push_char(out, c);
        proof {
            assert(c == decimal_digit_char(v as int));
            assert(final(out)@ =~= old(out)@ + decimal_digits(v as int));
        }
    } else {
        push_decimal(out, v / 10);
        let c: char = (48 + (v % 10) as u8) as char;
        push_char(out, c);
        proof {
            assert(c == decimal_digit_char((v % 10) as int));
            assert(final(out)@ =~= old(out)@ + decimal_digits(v as int));
        }
    }
}

/// Appends the escape of `label` to `buffer`: ASCII letters, the underscore,
/// and digits not in leading position pass through; any other character is
/// replaced by `u` followed by its zero-padded decimal code point.
pub fn create_label(buffer: &mut String, label: &str)
    ensures
        final(buffer)@ == old(buffer)@ + escaped(label@),
{
    let len = label.unicode_len();
    let mut i: usize = 0;
    while i < len
        invariant
            i <= len,
            len == label@.len(),
            buffer@ == old(buffer)@ + escaped_prefix(label@, i as int),
        decreases len - i,
    {
        let c = label.get_char(i);
        let code = c as u32;
        if (code >= 97 && code <= 122) || (code >= 65 && code <= 90) || c == '_' || (code >= 48
            && code <= 57 && i > 0) {
            push_char(buffer, c);
            proof {
                assert(escaped_char(c, i == 0) =~= seq![c]);
                assert(buffer@ =~= old(buffer)@ + escaped_prefix(label@, i + 1));
            }
        } else {
            push_char(buffer, 'u');
            if code < 10 {
                push_char(buffer, '0');
            }
            push_decimal(buffer, code);
            proof {
                assert(buffer@ =~= old(buffer)@ + escaped_prefix(label@, i + 1));
            }
        }
        i = i + 1;
    }
    proof {
        assert(final(buffer)@ == old(buffer)@ + escaped(label@));
    }
}

/// Builds the mangled label for a symbol identity. The result is a pure
/// function of the identity alone: equal identities always yield identical
/// label text.
pub fn create_function_label(symbol: &FunctionSymbol) -> (r: String)
    ensures
        r@ == symbol_label(*symbol),
{
    let mut buffer = String::new();
    create_label(&mut buffer, symbol.module_name.as_str());
    push_char(&mut buffer, '_');
    let ghost head = escaped(symbol.module_name@) + seq!['_'];
    proof {
        assert(buffer@ =~= head);
    }
    let mut i: usize = 0;
    while i < symbol.module_version.len()
        invariant
            i <= symbol.module_version@.len(),
            buffer@ == head + version_prefix(symbol.module_version@, i as int),
        decreases symbol.module_version@.len() - i,
    {
        push_decimal(&mut buffer, symbol.module_version[i]);
        push_char(&mut buffer, '_');
        proof {
            assert(buffer@ =~= head + version_prefix(symbol.module_version@, i + 1));
        }
        i = i + 1;
    }
    create_label(&mut buffer, symbol.symbol.as_str());
    proof {
        assert(buffer@ =~= symbol_label(*symbol));
    }
    buffer
}

/// True of characters that may begin an assembly label.
pub open spec fn is_label_start(c: char) -> bool {
    ||| 97 <= c as u32 <= 122
    ||| 65 <= c as u32 <= 90
    ||| c == '_'
}

/// True of characters that may appear anywhere in an assembly label.
pub open spec fn is_label_char(c: char) -> bool {
    is_label_start(c) || 48 <= c as u32 <= 57
}

/// Valid assembly label text: nonempty, the first character a letter or
/// underscore, every character a letter, digit or underscore.
pub open spec fn valid_label(s: Seq<char>) -> bool {
    &&& s.len() > 0
    &&& is_label_start(s[0])
    &&& forall|k: int| 0 <= k < s.len() ==> is_label_char(#[trigger] s[k])
}

proof fn lemma_decimal_digits_are_digits(v: int)
    requires
        0 <= v,
    ensures
        decimal_digits(v).len() >= 1,
        forall|k: int|
            0 <= k < decimal_digits(v).len() ==> 48 <= (#[trigger] decimal_digits(v)[k]) as u32
                <= 57,
    decreases v,
{
    if v < 10 {
        assert(decimal_digit_char(v) as u32 == 48 + v);
    } else {
        lemma_decimal_digits_are_digits(v / 10);
        assert(decimal_digit_char(v % 10) as u32 == 48 + v % 10);
    }
}

proof fn lemma_escaped_char_valid(c: char, leading: bool)
    ensures
        escaped_char(c, leading).len() >= 1,
        forall|k: int|
            0 <= k < escaped_char(c, leading).len() ==> is_label_char(
                #[trigger] escaped_char(c, leading)[k],
            ),
        leading ==> is_label_start(escaped_char(c, leading)[0]),
{
    if passes_through(c, leading) {
    } else {
        lemma_decimal_digits_are_digits(c as u32 as int);
        assert('u' as u32 == 117);
        assert('0' as u32 == 48);
    }
}

proof fn lemma_escaped_prefix_valid(s: Seq<char>, k: int)
    requires
        k <= s.len(),
    ensures
        forall|j: int|
            0 <= j < escaped_prefix(s, k).len() ==> is_label_char(
                #[trigger] escaped_prefix(s, k)[j],
            ),
        k > 0 ==> escaped_prefix(s, k).len() >= 1 && is_label_start(escaped_prefix(s, k)[0]),
    decreases k,
{
    if k <= 0 {
    } else {
        lemma_escaped_prefix_valid(s, k - 1);
        lemma_escaped_char_valid(s[k - 1], k - 1 == 0);
    }
}

proof fn lemma_version_prefix_valid(v: Seq<u32>, k: int)
    requires
        k <= v.len(),
    ensures
        forall|j: int|
            0 <= j < version_prefix(v, k).len() ==> is_label_char(
                #[trigger] version_prefix(v, k)[j],
            ),
    decreases k,
{
    if k <= 0 {
    } else {
        lemma_version_prefix_valid(v, k - 1);
        lemma_decimal_digits_are_digits(v[k - 1] as int);
        assert('_' as u32 == 95);
        let p = version_prefix(v, k - 1);
        let d = decimal_digits(v[k - 1] as int);
        assert forall|j: int| 0 <= j < version_prefix(v, k).len() implies is_label_char(
            #[trigger] version_prefix(v, k)[j],
        ) by {
            if j < p.len() {
                assert(version_prefix(v, k)[j] == p[j]);
            } else if j < p.len() + d.len() {
                assert(version_prefix(v, k)[j] == d[j - p.len()]);
            } else {
                assert(version_prefix(v, k)[j] == '_');
            }
        }
    }
}

/// Every mangled label is valid assembly label text: it is nonempty, its
/// first character is a letter or underscore, and every further character is
/// a letter, a digit or an underscore.
pub proof fn lemma_mangled_label_valid(module_name: Seq<char>, version: Seq<u32>, symbol: Seq<
    char,
>)
    ensures
        valid_label(mangled(module_name, version, symbol)),
{
    lemma_escaped_prefix_valid(module_name, module_name.len() as int);
    lemma_escaped_prefix_valid(symbol, symbol.len() as int);
    lemma_version_prefix_valid(version, version.len() as int);
    assert('_' as u32 == 95);
    let m = mangled(module_name, version, symbol);
    assert(m.len() > 0);
    if module_name.len() == 0 {
        assert(m[0] == '_');
    } else {
        assert(m[0] == escaped(module_name)[0]);
    }
    assert forall|k: int| 0 <= k < m.len() implies is_label_char(#[trigger] m[k]) by {
        let e = escaped(module_name);
        let vt = version_text(version);
        if k < e.len() {
            assert(m[k] == e[k]);
        } else if k == e.len() {
            assert(m[k] == '_');
        } else if k < e.len() + 1 + vt.len() {
            assert(m[k] == vt[k - e.len() - 1]);
        } else {
            assert(m[k] == escaped(symbol)[k - e.len() - 1 - vt.len()]);
        }
    }
}

} // verus!
