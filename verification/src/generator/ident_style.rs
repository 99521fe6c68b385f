//! Styles of identifiers in generated code: how a name written with
//! underscores is turned into the naming convention of a target language.

use crate::text::{chars_of, text_of};
use vstd::prelude::*;
use vstd::string::StringExecFns;

verus! {

/// The upper-case form of a character, which may be more than one character.
pub uninterp spec fn upper_of_char(c: char) -> Seq<char>;

/// The upper-case form of a text.
pub uninterp spec fn upper_of_text(s: Seq<char>) -> Seq<char>;

/// The upper-case form of `c`.
///
/// Wraps `char::to_uppercase`, which yields the upper-case mapping of the
/// character as one or more characters; they are collected into a string.
/// The contract claims no more than that the result is a function of `c`.
#[verifier::external_body]
fn char_to_upper(c: char) -> (r: String)
    ensures
        r@ == upper_of_char(c),
{
    c.to_uppercase().collect()
}

/// The upper-case form of `s`.
///
/// Wraps `str::to_uppercase`, which returns the upper-case equivalent of the
/// string as a new string. The contract claims no more than that the result
/// is a function of the characters of `s`.
#[verifier::external_body]
fn text_to_upper(s: &str) -> (r: String)
    ensures
        r@ == upper_of_text(s@),
{
    s.to_uppercase()
}

/// A text with its first character in upper case; the empty text stays empty.
pub open spec fn first_upper_spec(s: Seq<char>) -> Seq<char> {
    if s.len() == 0 {
        s
    } else {
        upper_of_char(s[0]) + s.subrange(1, s.len() as int)
    }
}

/// The index of the first underscore from `i` on, or the length of `s`.
pub open spec fn word_end(s: Seq<char>, i: int) -> int
    decreases s.len() - i,
{
    if 0 <= i < s.len() && s[i] != '_' {
        word_end(s, i + 1)
    } else {
        i
    }
}

/// The words of `s` from index `i` on: the texts between its underscores.
/// A text of `n` underscores has `n + 1` words, some of which may be empty.
pub open spec fn words_from(s: Seq<char>, i: int) -> Seq<Seq<char>>
    decreases s.len() - i,
{
    let e = word_end(s, i);
    if 0 <= i <= e < s.len() {
        seq![s.subrange(i, e)] + words_from(s, e + 1)
    } else if 0 <= i <= s.len() {
        seq![s.subrange(i, s.len() as int)]
    } else {
        seq![Seq::empty()]
    }
}

/// The words of `s`.
pub open spec fn words(s: Seq<char>) -> Seq<Seq<char>> {
    words_from(s, 0)
}

proof fn lemma_word_end(s: Seq<char>, i: int, j: int)
    requires
        0 <= i <= j <= s.len(),
        forall|k: int| i <= k < j ==> s[k] != '_',
        j == s.len() || s[j] == '_',
    ensures
        word_end(s, i) == j,
    decreases j - i,
{
    if i < j {
        lemma_word_end(s, i + 1, j);
    }
}

/// The words, each with its first character in upper case, one after the other.
pub open spec fn capitalized(ws: Seq<Seq<char>>) -> Seq<char>
    decreases ws.len(),
{
    if ws.len() == 0 {
        Seq::empty()
    } else {
        capitalized(ws.drop_last()) + first_upper_spec(ws.last())
    }
}

/// The words, each with its first character in upper case, with
/// underscores between them.
pub open spec fn capitalized_with_underscores(ws: Seq<Seq<char>>) -> Seq<char>
    decreases ws.len(),
{
    if ws.len() == 0 {
        Seq::empty()
    } else if ws.len() == 1 {
        first_upper_spec(ws[0])
    } else {
        capitalized_with_underscores(ws.drop_last()) + "_"@ + first_upper_spec(ws.last())
    }
}

/// The ways to write a name that is given with underscores between its words.
#[derive(Clone, Copy, PartialEq, Eq, Structural, Debug)]
pub enum CaseStyle {
    /// `FooBar`
    CamelUpper,
    /// `fooBar`
    CamelLower,
    /// `foo_bar`
    UnderLower,
    /// `Foo_Bar`
    UnderUpper,
    /// `FOO_BAR`
    UnderCaps,
}

/// The name `s` written in the style `style`.
pub open spec fn styled(style: CaseStyle, s: Seq<char>) -> Seq<char> {
    match style {
        CaseStyle::CamelUpper => capitalized(words(s)),
        CaseStyle::CamelLower => words(s)[0] + capitalized(words(s).subrange(1,
            words(s).len() as int)),
        CaseStyle::UnderLower => s,
        CaseStyle::UnderUpper => capitalized_with_underscores(words(s)),
        CaseStyle::UnderCaps => upper_of_text(s),
    }
}

/// A way to turn a name into an identifier: a style, and a text to put in front.
#[derive(Debug)]
pub struct IdentConverter {
    pub prefix: String,
    pub style: CaseStyle,
}

/// Model of an [`IdentConverter`].
pub ghost struct IdentConverterView {
    pub prefix: Seq<char>,
    pub style: CaseStyle,
}

impl View for IdentConverter {
    type V = IdentConverterView;

    open spec fn view(&self) -> IdentConverterView {
        IdentConverterView { prefix: self.prefix@, style: self.style }
    }
}

impl Clone for IdentConverter {
    fn clone(&self) -> (r: IdentConverter)
        ensures
            r == *self,
    {
        IdentConverter { prefix: self.prefix.clone(), style: self.style }
    }
}

/// The identifier that the converter `c` makes of the name `s`.
pub open spec fn converted(c: IdentConverterView, s: Seq<char>) -> Seq<char> {
    c.prefix + styled(c.style, s)
}

impl IdentConverter {
    /// The converter of a style alone.
    pub fn of(style: CaseStyle) -> (r: IdentConverter)
        ensures
            r@ == (IdentConverterView { prefix: Seq::empty(), style }),
    {
        IdentConverter { prefix: String::new(), style }
    }

    /// The identifier for the name `s`.
    pub fn convert(&self, s: String) -> (r: String)
        ensures
            r@ == converted(self@, s@),
    {
        let body = match self.style {
            CaseStyle::CamelUpper => IdentStyle::camel_upper(s),
            CaseStyle::CamelLower => IdentStyle::camel_lower(s),
            CaseStyle::UnderLower => IdentStyle::under_lower(s),
            CaseStyle::UnderUpper => IdentStyle::under_upper(s),
            CaseStyle::UnderCaps => IdentStyle::under_caps(s),
        };
        self.prefix.clone().concat(body.as_str())
    }
}

/// The converters of one target language, one for each kind of identifier.
pub struct IdentStyleDefault {
    pub ty: IdentConverter,
    pub enum_type: IdentConverter,
    pub type_param: IdentConverter,
    pub method: IdentConverter,
    pub field: IdentConverter,
    pub local: IdentConverter,
    pub enm: IdentConverter,
    pub cnst: IdentConverter,
}

impl IdentStyleDefault {
    pub fn new(
        ty: IdentConverter,
        enum_type: IdentConverter,
        type_param: IdentConverter,
        method: IdentConverter,
        field: IdentConverter,
        local: IdentConverter,
        enm: IdentConverter,
        cnst: IdentConverter,
    ) -> (r: IdentStyleDefault)
        ensures
            r.ty == ty,
            r.enum_type == enum_type,
            r.type_param == type_param,
            r.method == method,
            r.field == field,
            r.local == local,
            r.enm == enm,
            r.cnst == cnst,
    {
        IdentStyleDefault { ty, enum_type, type_param, method, field, local, enm, cnst }
    }

    /// The converters of a language that writes types in `FooBar`, methods,
    /// fields and locals in `fooBar`, and enum options and constants in `constants`.
    fn with_constants(constants: CaseStyle) -> (r: IdentStyleDefault)
        ensures
            r@ == default_styles(constants),
    {
        IdentStyleDefault {
            ty: IdentConverter::of(CaseStyle::CamelUpper),
            enum_type: IdentConverter::of(CaseStyle::CamelUpper),
            type_param: IdentConverter::of(CaseStyle::CamelUpper),
            method: IdentConverter::of(CaseStyle::CamelLower),
            field: IdentConverter::of(CaseStyle::CamelLower),
            local: IdentConverter::of(CaseStyle::CamelLower),
            enm: IdentConverter::of(constants),
            cnst: IdentConverter::of(constants),
        }
    }
}

/// Model of an [`IdentStyleDefault`].
pub ghost struct IdentStyleDefaultView {
    pub ty: IdentConverterView,
    pub enum_type: IdentConverterView,
    pub type_param: IdentConverterView,
    pub method: IdentConverterView,
    pub field: IdentConverterView,
    pub local: IdentConverterView,
    pub enm: IdentConverterView,
    pub cnst: IdentConverterView,
}

impl View for IdentStyleDefault {
    type V = IdentStyleDefaultView;

    open spec fn view(&self) -> IdentStyleDefaultView {
        IdentStyleDefaultView {
            ty: self.ty@,
            enum_type: self.enum_type@,
            type_param: self.type_param@,
            method: self.method@,
            field: self.field@,
            local: self.local@,
            enm: self.enm@,
            cnst: self.cnst@,
        }
    }
}

/// The converter of a style without a prefix.
pub open spec fn plain(style: CaseStyle) -> IdentConverterView {
    IdentConverterView { prefix: Seq::empty(), style }
}

/// The converters of a language that writes types in `FooBar`, methods,
/// fields and locals in `fooBar`, and enum options and constants in `constants`.
pub open spec fn default_styles(constants: CaseStyle) -> IdentStyleDefaultView {
    IdentStyleDefaultView {
        ty: plain(CaseStyle::CamelUpper),
        enum_type: plain(CaseStyle::CamelUpper),
        type_param: plain(CaseStyle::CamelUpper),
        method: plain(CaseStyle::CamelLower),
        field: plain(CaseStyle::CamelLower),
        local: plain(CaseStyle::CamelLower),
        enm: plain(constants),
        cnst: plain(constants),
    }
}

/// The styles by the example that names each: `FooBar`, `fooBar`,
/// `foo_bar`, `Foo_Bar` and `FOO_BAR`.
pub open spec fn named_styles() -> Seq<(Seq<char>, IdentConverterView)> {
    seq![
        ("FooBar"@, plain(CaseStyle::CamelUpper)),
        ("fooBar"@, plain(CaseStyle::CamelLower)),
        ("foo_bar"@, plain(CaseStyle::UnderLower)),
        ("Foo_Bar"@, plain(CaseStyle::UnderUpper)),
        ("FOO_BAR"@, plain(CaseStyle::UnderCaps)),
    ]
}

/// The models of the named styles in `v`.
pub open spec fn styles_view(v: Seq<(String, IdentConverter)>) -> Seq<
    (Seq<char>, IdentConverterView),
> {
    Seq::new(v.len(), |i: int| (v[i].0@, v[i].1@))
}

/// Whether `s` ends with `tail`.
pub open spec fn ends_with(s: Seq<char>, tail: Seq<char>) -> bool {
    tail.len() <= s.len() && s.subrange(s.len() - tail.len(), s.len() as int) == tail
}

/// The converter that `input` describes, by the named styles from index `k`
/// on: the first style whose name `input` ends with, with what stands before
/// the name as prefix in front of the style's own.
pub open spec fn infer_from(
    styles: Seq<(Seq<char>, IdentConverterView)>,
    input: Seq<char>,
    k: int,
) -> Option<IdentConverterView>
    decreases styles.len() - k,
{
    if !(0 <= k < styles.len()) {
        None
    } else if ends_with(input, styles[k].0) {
        Some(
            IdentConverterView {
                prefix: input.subrange(0, input.len() - styles[k].0.len()) + styles[k].1.prefix,
                style: styles[k].1.style,
            },
        )
    } else {
        infer_from(styles, input, k + 1)
    }
}

/// The option's model.
pub open spec fn optional_converter(o: Option<IdentConverter>) -> Option<IdentConverterView> {
    match o {
        Some(c) => Some(c@),
        None => None,
    }
}

/// The styles of the target languages and the table of the named styles.
pub struct IdentStyle {
    pub cpp_style_default: IdentStyleDefault,
    pub java_style_default: IdentStyleDefault,
    pub objc_style_default: IdentStyleDefault,
    pub styles: Vec<(String, IdentConverter)>,
}

/// A style for the identifiers of one target.
pub enum IdentStyleType {
    CppIdentStyle(IdentConverter),
}

impl IdentStyle {
    /// The default styles: C++ and Java write enum options and constants in
    /// `FOO_BAR`, Objective-C in `FooBar`.
    pub fn new() -> (r: IdentStyle)
        ensures
            r.cpp_style_default@ == default_styles(CaseStyle::UnderCaps),
            r.java_style_default@ == default_styles(CaseStyle::UnderCaps),
            r.objc_style_default@ == default_styles(CaseStyle::CamelUpper),
            styles_view(r.styles@) == named_styles(),
    {
        let mut styles_map: Vec<(String, IdentConverter)> = Vec::new();
        styles_map.push((String::from_str("FooBar"), IdentConverter::of(CaseStyle::CamelUpper)));
        styles_map.push((String::from_str("fooBar"), IdentConverter::of(CaseStyle::CamelLower)));
        styles_map.push((String::from_str("foo_bar"), IdentConverter::of(CaseStyle::UnderLower)));
        styles_map.push((String::from_str("Foo_Bar"), IdentConverter::of(CaseStyle::UnderUpper)));
        styles_map.push((String::from_str("FOO_BAR"), IdentConverter::of(CaseStyle::UnderCaps)));
        assert(styles_view(styles_map@) =~= named_styles());
        IdentStyle {
            cpp_style_default: IdentStyleDefault::with_constants(CaseStyle::UnderCaps),
            java_style_default: IdentStyleDefault::with_constants(CaseStyle::UnderCaps),
            objc_style_default: IdentStyleDefault::with_constants(CaseStyle::CamelUpper),
            styles: styles_map,
        }
    }

    /// `chars[from..to]` with its first character in upper case.
    fn first_upper_of(chars: &Vec<char>, from: usize, to: usize) -> (r: String)
        requires
            from <= to <= chars.len(),
        ensures
            r@ == first_upper_spec(chars@.subrange(from as int, to as int)),
    {
        if from == to {
            let r = String::new();
            assert(r@ =~= chars@.subrange(from as int, to as int));
            r
        } else {
            let head = char_to_upper(chars[from]);
            let tail = text_of(chars, from + 1, to);
            let ghost word = chars@.subrange(from as int, to as int);
            assert(word.subrange(1, word.len() as int) =~= chars@.subrange(from + 1, to as int));
            head.concat(tail.as_str())
        }
    }

    /// `token` with its first character in upper case.
    pub fn first_upper(token: String) -> (r: String)
        ensures
            r@ == first_upper_spec(token@),
    {
        let chars = chars_of(token.as_str());
        assert(chars@.subrange(0, chars@.len() as int) =~= chars@);
        IdentStyle::first_upper_of(&chars, 0, chars.len())
    }

    /// The bounds of the words of `chars`, in order.
    fn split(chars: &Vec<char>) -> (r: Vec<(usize, usize)>)
        ensures
            r@.len() == words(chars@).len(),
            r@.len() >= 1,
            forall|k: int|
                0 <= k < r@.len() ==> (#[trigger] r@[k]).0 <= r@[k].1 <= chars@.len() && words(
                    chars@,
                )[k] == chars@.subrange(r@[k].0 as int, r@[k].1 as int),
    {
        let ghost s = chars@;
        let n = chars.len();
        let mut out: Vec<(usize, usize)> = Vec::new();
        let mut start: usize = 0;
        let mut i: usize = 0;
        while i < n
            invariant
                s == chars@,
                n == s.len(),
                start <= i <= n,
                forall|k: int| start <= k < i ==> s[k] != '_',
                words(s).len() == out@.len() + words_from(s, start as int).len(),
                forall|k: int|
                    0 <= k < out@.len() ==> (#[trigger] out@[k]).0 <= out@[k].1 <= n && words(s)[k]
                        == s.subrange(out@[k].0 as int, out@[k].1 as int),
                forall|k: int|
                    0 <= k < words_from(s, start as int).len() ==> words(s)[out@.len() + k]
                        == #[trigger] words_from(s, start as int)[k],
            decreases n - i,
        {
            if chars[i] == '_' {
                proof {
                    lemma_word_end(s, start as int, i as int);
                    let rest = words_from(s, i + 1);
                    assert(words_from(s, start as int) == seq![s.subrange(start as int, i as int)]
                        + rest);
                    assert(words_from(s, start as int)[0] == s.subrange(start as int, i as int));
                    assert forall|k: int| 0 <= k < rest.len() implies words(s)[out@.len() + 1 + k]
                        == #[trigger] rest[k] by {
                        assert(words_from(s, start as int)[k + 1] == rest[k]);
                    }
                }
                out.push((start, i));
                start = i + 1;
            }
            i += 1;
        }
        proof {
            lemma_word_end(s, start as int, n as int);
            assert(words_from(s, start as int) =~= seq![s.subrange(start as int, n as int)]);
            assert(words_from(s, start as int)[0] == s.subrange(start as int, n as int));
        }
        out.push((start, n));
        out
    }

    /// The words from index `first` on, each with its first character in
    /// upper case, one after the other.
    fn capitalize(chars: &Vec<char>, bounds: &Vec<(usize, usize)>, first: usize) -> (r: String)
        requires
            first <= bounds@.len(),
            bounds@.len() == words(chars@).len(),
            forall|k: int|
                0 <= k < bounds@.len() ==> (#[trigger] bounds@[k]).0 <= bounds@[k].1
                    <= chars@.len() && words(chars@)[k] == chars@.subrange(
                    bounds@[k].0 as int,
                    bounds@[k].1 as int,
                ),
        ensures
            r@ == capitalized(words(chars@).subrange(first as int, words(chars@).len() as int)),
    {
        let ghost ws = words(chars@).subrange(first as int, words(chars@).len() as int);
        let mut out = String::new();
        let mut k: usize = first;
        assert(ws.take(0) =~= Seq::<Seq<char>>::empty());
        while k < bounds.len()
            invariant
                first <= k <= bounds@.len(),
                bounds@.len() == words(chars@).len(),
                ws == words(chars@).subrange(first as int, words(chars@).len() as int),
                forall|j: int|
                    0 <= j < bounds@.len() ==> (#[trigger] bounds@[j]).0 <= bounds@[j].1
                        <= chars@.len() && words(chars@)[j] == chars@.subrange(
                        bounds@[j].0 as int,
                        bounds@[j].1 as int,
                    ),
                out@ == capitalized(ws.take(k - first)),
            decreases bounds.len() - k,
        {
            let word = IdentStyle::first_upper_of(chars, bounds[k].0, bounds[k].1);
            out.append(word.as_str());
            proof {
                assert(ws.take(k + 1 - first).drop_last() =~= ws.take(k - first));
                assert(ws.take(k + 1 - first).last() == words(chars@)[k as int]);
            }
            k += 1;
        }
        assert(ws.take(k - first) =~= ws);
        out
    }

    /// `foo_bar` becomes `FooBar`.
    pub fn camel_upper(s: String) -> (r: String)
        ensures
            r@ == styled(CaseStyle::CamelUpper, s@),
    {
        let chars = chars_of(s.as_str());
        let bounds = IdentStyle::split(&chars);
        assert(words(s@).subrange(0, words(s@).len() as int) =~= words(s@));
        IdentStyle::capitalize(&chars, &bounds, 0)
    }

    /// `foo_bar` becomes `fooBar`.
    pub fn camel_lower(s: String) -> (r: String)
        ensures
            r@ == styled(CaseStyle::CamelLower, s@),
    {
        let chars = chars_of(s.as_str());
        let bounds = IdentStyle::split(&chars);
        let first = text_of(&chars, bounds[0].0, bounds[0].1);
        let rest = IdentStyle::capitalize(&chars, &bounds, 1);
        first.concat(rest.as_str())
    }

    /// `foo_bar` stays `foo_bar`.
    pub fn under_lower(s: String) -> (r: String)
        ensures
            r@ == styled(CaseStyle::UnderLower, s@),
    {
        s
    }

    /// `foo_bar` becomes `Foo_Bar`.
    pub fn under_upper(s: String) -> (r: String)
        ensures
            r@ == styled(CaseStyle::UnderUpper, s@),
    {
        let chars = chars_of(s.as_str());
        let bounds = IdentStyle::split(&chars);
        let ghost ws = words(s@);
        let mut out = String::new();
        let mut k: usize = 0;
        assert(ws.take(0) =~= Seq::<Seq<char>>::empty());
        while k < bounds.len()
            invariant
                k <= bounds@.len(),
                bounds@.len() == ws.len(),
                ws == words(chars@),
                forall|j: int|
                    0 <= j < bounds@.len() ==> (#[trigger] bounds@[j]).0 <= bounds@[j].1
                        <= chars@.len() && ws[j] == chars@.subrange(
                        bounds@[j].0 as int,
                        bounds@[j].1 as int,
                    ),
                out@ == capitalized_with_underscores(ws.take(k as int)),
            decreases bounds.len() - k,
        {
            if k > 0 {
                out.append("_");
            }
            let word = IdentStyle::first_upper_of(&chars, bounds[k].0, bounds[k].1);
            out.append(word.as_str());
            proof {
                assert(ws.take(k + 1).drop_last() =~= ws.take(k as int));
                assert(ws.take(k + 1).last() == ws[k as int]);
            }
            k += 1;
        }
        assert(ws.take(k as int) =~= ws);
        out
    }

    /// `foo_bar` becomes `FOO_BAR`.
    pub fn under_caps(s: String) -> (r: String)
        ensures
            r@ == styled(CaseStyle::UnderCaps, s@),
    {
        text_to_upper(s.as_str())
    }

    /// The converter that puts `pre` in front of what `suffix` makes.
    pub fn prefix(pre: String, suffix: IdentConverter) -> (r: IdentConverter)
        ensures
            r@ == (IdentConverterView { prefix: pre@ + suffix@.prefix, style: suffix@.style }),
            forall|s: Seq<char>| #[trigger] converted(r@, s) == pre@ + converted(suffix@, s),
    {
        let r = IdentConverter { prefix: pre.concat(suffix.prefix.as_str()), style: suffix.style };
        assert forall|s: Seq<char>| #[trigger] converted(r@, s) == pre@ + converted(suffix@, s) by {
            assert(converted(r@, s) =~= pre@ + converted(suffix@, s));
        }
        r
    }

    /// Whether the characters `s` end with the characters `tail`.
    fn ends_with(s: &Vec<char>, tail: &Vec<char>) -> (r: bool)
        ensures
            r == ends_with(s@, tail@),
    {
        if tail.len() > s.len() {
            return false;
        }
        let diff = s.len() - tail.len();
        let mut k: usize = 0;
        while k < tail.len()
            invariant
                k <= tail.len(),
                diff + tail.len() == s.len(),
                forall|j: int| 0 <= j < k ==> s@[diff + j] == tail@[j],
            decreases tail.len() - k,
        {
            if s[diff + k] != tail[k] {
                assert(s@.subrange(s@.len() - tail@.len(),
                    s@.len() as int)[k as int] != tail@[k as int]);
                return false;
            }
            k += 1;
        }
        assert(s@.subrange(s@.len() - tail@.len(), s@.len() as int) =~= tail@);
        true
    }

    /// The converter that `input` describes: the first of the named styles
    /// whose name `input` ends with, with what stands before the name as
    /// prefix; none if `input` ends with no style's name.
    pub fn infer(styles: &Vec<(String, IdentConverter)>, input: String) -> (r: Option<
        IdentConverter,
    >)
        ensures
            optional_converter(r) == infer_from(styles_view(styles@), input@, 0),
    {
        let chars = chars_of(input.as_str());
        let ghost all = styles_view(styles@);
        let mut k: usize = 0;
        while k < styles.len()
            invariant
                k <= styles.len(),
                chars@ == input@,
                all == styles_view(styles@),
                infer_from(all, input@, 0) == infer_from(all, input@, k as int),
            decreases styles.len() - k,
        {
            let name = chars_of(styles[k].0.as_str());
            if IdentStyle::ends_with(&chars, &name) {
                let diff = chars.len() - name.len();
                let before = text_of(&chars, 0, diff);
                return Some(IdentStyle::prefix(before, styles[k].1.clone()));
            }
            k += 1;
        }
        None
    }

    /// The converter that `name` describes by the default table of named styles.
    pub fn build_ident_style(name: &str) -> (r: Option<IdentConverter>)
        ensures
            optional_converter(r) == infer_from(named_styles(), name@, 0),
    {
        let ident_style = IdentStyle::new();
        IdentStyle::infer(&ident_style.styles, String::from_str(name))
    }
}

} // verus!
