//! Annotation parsing: the `clap` annotations of a type definition and of
//! the members of a command group, turned into attribute sets.
use vstd::prelude::*;

verus! {

/// The value of a `key = value` annotation item.
#[derive(Debug, Clone)]
pub enum AttrValue {
    /// A string literal, as in `name = "foo"`.
    Str(String),
    /// Any other literal or nested form, kept as its source text.
    Other(String),
}

/// One annotation item: a bare word when `value` is `None`, else `key = value`.
///
/// The items of all `clap` annotation blocks on one item are concatenated in
/// source order before parsing.
#[derive(Debug, Clone)]
pub struct Annotation {
    pub key: String,
    pub value: Option<AttrValue>,
}

/// One annotation block on an item: `#[name(items...)]` where `items` is
/// `Some`, a block of another form (`#[name]`, `#[name = ...]`) where it is
/// `None`.
#[derive(Debug, Clone)]
pub struct AnnotationBlock {
    pub name: String,
    pub items: Option<Vec<Annotation>>,
}

/// The items of the `clap(...)` blocks, concatenated in source order; blocks
/// of any other name or form are not this tool's.
pub open spec fn clap_items_spec(blocks: Seq<AnnotationBlock>) -> Seq<Annotation>
    decreases blocks.len(),
{
    if blocks.len() == 0 {
        Seq::empty()
    } else {
        let b = blocks.last();
        if b.name@ == "clap"@ && b.items is Some {
            clap_items_spec(blocks.drop_last()) + b.items->Some_0@
        } else {
            clap_items_spec(blocks.drop_last())
        }
    }
}

fn copy_annotation(a: &Annotation) -> (r: Annotation)
    ensures
        r == *a,
{
    let value = match &a.value {
        None => None,
        Some(AttrValue::Str(v)) => Some(AttrValue::Str(v.clone())),
        Some(AttrValue::Other(v)) => Some(AttrValue::Other(v.clone())),
    };
    Annotation { key: a.key.clone(), value }
}

/// The items of the `clap(...)` blocks among `blocks`, in source order.
pub fn clap_items(blocks: &Vec<AnnotationBlock>) -> (r: Vec<Annotation>)
    ensures
        r@ == clap_items_spec(blocks@),
{
    let clap = "clap".to_owned();
    let mut out: Vec<Annotation> = Vec::new();
    let n = blocks.len();
    let mut i: usize = 0;
    while i < n
        invariant
            0 <= i <= n,
            n == blocks@.len(),
            clap@ == "clap"@,
            out@ == clap_items_spec(blocks@.take(i as int)),
        decreases n - i,
    {
        let b = &blocks[i];
        proof {
            assert(blocks@.take(i + 1).drop_last() =~= blocks@.take(i as int));
            assert(blocks@.take(i + 1).last() == blocks@[i as int]);
        }
        if b.name == clap {
            if let Some(items) = &b.items {
                let ghost base = out@;
                let m = items.len();
                let mut j: usize = 0;
                while j < m
                    invariant
                        0 <= j <= m,
                        m == items@.len(),
                        out@ == base + items@.take(j as int),
                    decreases m - j,
                {
                    out.push(copy_annotation(&items[j]));
                    assert(out@ =~= base + items@.take(j + 1));
                    j += 1;
                }
                assert(items@.take(m as int) =~= items@);
            }
        }
        i += 1;
    }
    assert(blocks@.take(n as int) =~= blocks@);
    out
}

/// Why an annotation list was rejected; each variant carries the offending key.
#[derive(Debug, Clone, PartialEq, Eq)]
pub enum AttrError {
    UnknownAttributeKey(String),
    InvalidAttributeValue(String),
    DuplicateField(String),
}

pub enum AttrErrorView {
    UnknownAttributeKey(Seq<char>),
    InvalidAttributeValue(Seq<char>),
    DuplicateField(Seq<char>),
}

impl View for AttrError {
    type V = AttrErrorView;

    open spec fn view(&self) -> AttrErrorView {
        match self {
            AttrError::UnknownAttributeKey(k) => AttrErrorView::UnknownAttributeKey(k@),
            AttrError::InvalidAttributeValue(k) => AttrErrorView::InvalidAttributeValue(k@),
            AttrError::DuplicateField(k) => AttrErrorView::DuplicateField(k@),
        }
    }
}

/// The attribute set of a command (a record or a command group).
#[derive(Debug, Clone)]
pub struct Attributes {
    pub name: Option<String>,
    pub about: Option<String>,
    /// Setting words, in declaration order; duplicates are kept.
    pub settings: Vec<String>,
}

pub struct AttributesView {
    pub name: Option<Seq<char>>,
    pub about: Option<Seq<char>>,
    pub settings: Seq<Seq<char>>,
}

impl View for Attributes {
    type V = AttributesView;

    open spec fn view(&self) -> AttributesView {
        AttributesView {
            name: self.name.deep_view(),
            about: self.about.deep_view(),
            settings: self.settings.deep_view(),
        }
    }
}

/// The attribute set of one member of a command group.
#[derive(Debug, Clone)]
pub struct VariantAttributes {
    pub name: Option<String>,
    pub help: Option<String>,
}

pub struct VariantAttributesView {
    pub name: Option<Seq<char>>,
    pub help: Option<Seq<char>>,
}

impl View for VariantAttributes {
    type V = VariantAttributesView;

    open spec fn view(&self) -> VariantAttributesView {
        VariantAttributesView { name: self.name.deep_view(), help: self.help.deep_view() }
    }
}

/// The ambient strings that stand in for a missing top-level name or about:
/// the hosting package's declared name and description.
#[derive(Debug, Clone)]
pub struct Package {
    pub name: String,
    pub description: String,
}

pub struct PackageView {
    pub name: Seq<char>,
    pub description: Seq<char>,
}

impl View for Package {
    type V = PackageView;

    open spec fn view(&self) -> PackageView {
        PackageView { name: self.name@, description: self.description@ }
    }
}

pub open spec fn name_key() -> Seq<char> {
    "name"@
}

pub open spec fn about_key() -> Seq<char> {
    "about"@
}

pub open spec fn help_key() -> Seq<char> {
    "help"@
}

/// Whether an item is read as a key. Where setting words are allowed, a bare
/// word is a setting; elsewhere every item is a key.
pub open spec fn is_keyed(a: Annotation, words: bool) -> bool {
    a.value is Some || !words
}

/// The keys recognized at a level: `name` and one other (`about` or `help`).
pub open spec fn is_known_key(k: Seq<char>, second: Seq<char>) -> bool {
    k == name_key() || k == second
}

pub open spec fn is_unknown_at(s: Seq<Annotation>, j: int, second: Seq<char>, words: bool) -> bool {
    is_keyed(s[j], words) && !is_known_key(s[j].key@, second)
}

/// The fault of a recognized key at position `j`: a value that is not a
/// string literal, or a key that was already given before `j`.
pub open spec fn fault_at(s: Seq<Annotation>, j: int, second: Seq<char>, words: bool) -> Option<
    AttrErrorView,
> {
    let a = s[j];
    if !is_keyed(a, words) || !is_known_key(a.key@, second) {
        None
    } else if !(a.value matches Some(AttrValue::Str(_))) {
        Some(AttrErrorView::InvalidAttributeValue(a.key@))
    } else if exists|i: int| 0 <= i < j && is_keyed(#[trigger] s[i], words) && s[i].key@ == a.key@ {
        Some(AttrErrorView::DuplicateField(a.key@))
    } else {
        None
    }
}

/// The string value given to key `k` (the last one, should there be several).
pub open spec fn value_of(s: Seq<Annotation>, k: Seq<char>) -> Option<Seq<char>>
    decreases s.len(),
{
    if s.len() == 0 {
        None
    } else if s.last().key@ == k && s.last().value is Some && s.last().value->Some_0 is Str {
        Some(s.last().value->Some_0->Str_0@)
    } else {
        value_of(s.drop_last(), k)
    }
}

/// The bare words, in order.
pub open spec fn words_of(s: Seq<Annotation>) -> Seq<Seq<char>>
    decreases s.len(),
{
    if s.len() == 0 {
        Seq::empty()
    } else if s.last().value is None {
        words_of(s.drop_last()).push(s.last().key@)
    } else {
        words_of(s.drop_last())
    }
}

/// The earliest position of an unknown key (meaningful where there is one).
pub open spec fn first_unknown(s: Seq<Annotation>, second: Seq<char>, words: bool) -> int {
    choose|j: int|
        0 <= j < s.len() && is_unknown_at(s, j, second, words) && forall|i: int|
            0 <= i < j ==> !is_unknown_at(s, i, second, words)
}

/// The earliest position of a fault (meaningful where there is one).
pub open spec fn first_fault(s: Seq<Annotation>, second: Seq<char>, words: bool) -> int {
    choose|j: int|
        0 <= j < s.len() && fault_at(s, j, second, words) is Some && forall|i: int|
            0 <= i < j ==> fault_at(s, i, second, words) is None
}

/// What parsing `s` yields, where `second` is the recognized key besides
/// `name` and `words` says whether bare words are settings.
///
/// The earliest unknown key is reported first; else the earliest fault of a
/// recognized key; else the parse succeeds.
#[verifier::opaque]
pub open spec fn parse_spec(s: Seq<Annotation>, second: Seq<char>, words: bool) -> Result<
    AttributesView,
    AttrErrorView,
> {
    if exists|j: int| 0 <= j < s.len() && is_unknown_at(s, j, second, words) {
        Err(AttrErrorView::UnknownAttributeKey(s[first_unknown(s, second, words)].key@))
    } else if exists|j: int| 0 <= j < s.len() && fault_at(s, j, second, words) is Some {
        Err(fault_at(s, first_fault(s, second, words), second, words)->Some_0)
    } else {
        Ok(
            AttributesView {
                name: value_of(s, name_key()),
                about: value_of(s, second),
                settings: words_of(s),
            },
        )
    }
}

/// Where some key is unknown, there is an earliest one.
proof fn lemma_first_unknown(s: Seq<Annotation>, second: Seq<char>, words: bool, k: int)
    requires
        0 <= k < s.len(),
        is_unknown_at(s, k, second, words),
    ensures
        0 <= first_unknown(s, second, words) < s.len(),
        is_unknown_at(s, first_unknown(s, second, words), second, words),
    decreases k,
{
    if exists|i: int| 0 <= i < k && is_unknown_at(s, i, second, words) {
        let i = choose|i: int| 0 <= i < k && is_unknown_at(s, i, second, words);
        lemma_first_unknown(s, second, words, i);
    } else {
        assert(forall|i: int| 0 <= i < k ==> !is_unknown_at(s, i, second, words));
    }
}

proof fn lemma_first_fault_at(s: Seq<Annotation>, second: Seq<char>, words: bool, i: int)
    requires
        0 <= i < s.len(),
        fault_at(s, i, second, words) is Some,
        forall|j: int| 0 <= j < i ==> fault_at(s, j, second, words) is None,
    ensures
        first_fault(s, second, words) == i,
{
    let j = first_fault(s, second, words);
    assert(0 <= j < s.len() && fault_at(s, j, second, words) is Some);
}

pub open spec fn attrs_result_view(r: Result<Attributes, AttrError>) -> Result<
    AttributesView,
    AttrErrorView,
> {
    match r {
        Ok(a) => Ok(a@),
        Err(e) => Err(e@),
    }
}

/// Parses `items`; `second` is the recognized key besides `name`, and
/// `words` says whether bare words are settings.
fn parse_items(items: &Vec<Annotation>, second: &str, words: bool) -> (r: Result<
    Attributes,
    AttrError,
>)
    requires
        second@ != name_key(),
    ensures
        attrs_result_view(r) == parse_spec(items@, second@, words),
{
    proof {
        reveal(parse_spec);
    }
    let s = Ghost(items@);
    let name_lit = "name".to_owned();
    let second_lit = second.to_owned();
    let n = items.len();
    let mut i: usize = 0;
    while i < n
        invariant
            0 <= i <= n,
            n == s@.len(),
            s@ == items@,
            name_lit@ == name_key(),
            second_lit@ == second@,
            forall|j: int| 0 <= j < i ==> !is_unknown_at(s@, j, second@, words),
        decreases n - i,
    {
        proof {
            reveal(parse_spec);
        }
        let a = &items[i];
        let keyed = a.value.is_some() || !words;
        if keyed && !(a.key == name_lit) && !(a.key == second_lit) {
            let r = Err(AttrError::UnknownAttributeKey(a.key.clone()));
            assert(is_unknown_at(s@, i as int, second@, words));
            let ghost j = first_unknown(s@, second@, words);
            assert(j == i);
            return r;
        }
        i += 1;
    }
    let mut name: Option<String> = None;
    let mut about: Option<String> = None;
    let mut settings: Vec<String> = Vec::new();
    let mut i: usize = 0;
    while i < n
        invariant
            0 <= i <= n,
            n == s@.len(),
            s@ == items@,
            name_lit@ == name_key(),
            second_lit@ == second@,
            second@ != name_key(),
            forall|j: int| 0 <= j < n ==> !is_unknown_at(s@, j, second@, words),
            forall|j: int| 0 <= j < i ==> fault_at(s@, j, second@, words) is None,
            name.deep_view() == value_of(s@.take(i as int), name_key()),
            about.deep_view() == value_of(s@.take(i as int), second@),
            settings.deep_view() == words_of(s@.take(i as int)),
            name is Some <==> exists|j: int|
                0 <= j < i && is_keyed(#[trigger] s@[j], words) && s@[j].key@ == name_key(),
            about is Some <==> exists|j: int|
                0 <= j < i && is_keyed(#[trigger] s@[j], words) && s@[j].key@ == second@,
        decreases n - i,
    {
        proof {
            reveal(parse_spec);
        }
        let a = &items[i];
        let ghost t = s@.take(i + 1);
        proof {
            assert(t.drop_last() =~= s@.take(i as int));
            assert(t.last() == s@[i as int]);
            assert(!is_unknown_at(s@, i as int, second@, words));
        }
        match &a.value {
            None => {
                if words {
                    settings.push(a.key.clone());
                    proof {
                        assert(settings.deep_view() =~= words_of(t));
                    }
                } else {
                    proof {
                        lemma_first_fault_at(s@, second@, words, i as int);
                    }
                    return Err(AttrError::InvalidAttributeValue(a.key.clone()));
                }
            },
            Some(AttrValue::Other(_)) => {
                proof {
                    lemma_first_fault_at(s@, second@, words, i as int);
                }
                return Err(AttrError::InvalidAttributeValue(a.key.clone()));
            },
            Some(AttrValue::Str(v)) => {
                if a.key == name_lit {
                    if name.is_some() {
                        proof {
                            lemma_first_fault_at(s@, second@, words, i as int);
                        }
                        return Err(AttrError::DuplicateField(a.key.clone()));
                    }
                    name = Some(v.clone());
                } else {
                    if about.is_some() {
                        proof {
                            lemma_first_fault_at(s@, second@, words, i as int);
                        }
                        return Err(AttrError::DuplicateField(a.key.clone()));
                    }
                    about = Some(v.clone());
                }
                proof {
                    assert(is_keyed(s@[i as int], words));
                }
            },
        }
        assert(fault_at(s@, i as int, second@, words) is None);
        i += 1;
    }
    proof {
        assert(s@.take(n as int) =~= s@);
    }
    Ok(Attributes { name, about, settings })
}

impl Attributes {
    /// Parses the annotation items of a command. `name = "..."` and
    /// `about = "..."` set the fields, bare words are settings; any other key
    /// is unknown, a value that is not a string literal is invalid, and a key
    /// given twice is a duplicate.
    pub fn new(items: &Vec<Annotation>) -> (r: Result<Attributes, AttrError>)
        ensures
            attrs_result_view(r) == parse_spec(items@, about_key(), true),
            // only recognized keys, each given once with a string: success,
            // with the settings in the order of the bare words
            (forall|j: int|
                0 <= j < items@.len() ==> !is_unknown_at(items@, j, about_key(), true) && fault_at(
                    items@,
                    j,
                    about_key(),
                    true,
                ) is None) ==> r is Ok && r->Ok_0.settings.deep_view() == words_of(items@),
            // an unrecognized key: failure naming the first such key
            (exists|j: int| 0 <= j < items@.len() && is_unknown_at(items@, j, about_key(), true))
                ==> (r matches Err(AttrError::UnknownAttributeKey(k)) && exists|j: int|
                0 <= j < items@.len() && is_unknown_at(items@, j, about_key(), true)
                    && items@[j].key@ == k@),
    {
        proof {
            reveal_strlit("name");
            reveal_strlit("about");
            reveal(parse_spec);
            assert("about"@.len() != "name"@.len());
        }
        let r = parse_items(items, "about", true);
        proof {
            let s = items@;
            if exists|j: int| 0 <= j < s.len() && is_unknown_at(s, j, about_key(), true) {
                let k = choose|j: int| 0 <= j < s.len() && is_unknown_at(s, j, about_key(), true);
                lemma_first_unknown(s, about_key(), true, k);
            }
            if forall|j: int|
                0 <= j < s.len() ==> !is_unknown_at(s, j, about_key(), true) && fault_at(
                    s,
                    j,
                    about_key(),
                    true,
                ) is None {
                assert(!exists|j: int| 0 <= j < s.len() && is_unknown_at(s, j, about_key(), true));
                if exists|j: int| 0 <= j < s.len() && fault_at(s, j, about_key(), true) is Some {
                    let j = choose|j: int|
                        0 <= j < s.len() && fault_at(s, j, about_key(), true) is Some;
                    assert(!is_unknown_at(s, j, about_key(), true));
                    assert(fault_at(s, j, about_key(), true) is None);
                }
            }
        }
        r
    }

    /// The name of the command: the given one, else the package name.
    pub fn attribute_name(&self, package: &Package) -> (r: String)
        ensures
            r@ == resolved_name(self@, package@),
            self.name is None ==> r@ == package.name@,
    {
        match &self.name {
            Some(n) => n.clone(),
            None => package.name.clone(),
        }
    }

    /// The description of the command: the given one, else the package
    /// description.
    pub fn attribute_about(&self, package: &Package) -> (r: String)
        ensures
            r@ == resolved_about(self@, package@),
            self.about is None ==> r@ == package.description@,
    {
        match &self.about {
            Some(a) => a.clone(),
            None => package.description.clone(),
        }
    }
}

pub open spec fn resolved_name(a: AttributesView, package: PackageView) -> Seq<char> {
    match a.name {
        Some(n) => n,
        None => package.name,
    }
}

pub open spec fn resolved_about(a: AttributesView, package: PackageView) -> Seq<char> {
    match a.about {
        Some(t) => t,
        None => package.description,
    }
}

/// The lower-case form of a string, as `str::to_lowercase` computes it.
pub uninterp spec fn lower_of(s: Seq<char>) -> Seq<char>;

/// Relies on `str::to_lowercase`: its result depends on the characters alone.
#[verifier::external_body]
fn lowercase(s: &str) -> (r: String)
    ensures
        r@ == lower_of(s@),
{
    s.to_lowercase()
}

pub open spec fn variant_result_view(r: Result<VariantAttributes, AttrError>) -> Result<
    AttributesView,
    AttrErrorView,
> {
    match r {
        Ok(a) => Ok(AttributesView { name: a@.name, about: a@.help, settings: Seq::empty() }),
        Err(e) => Err(e@),
    }
}

impl VariantAttributes {
    /// Parses the annotation items of a command-group member: only
    /// `name = "..."` and `help = "..."` are recognized, and a bare word is
    /// read as a key without a value.
    pub fn new(items: &Vec<Annotation>) -> (r: Result<VariantAttributes, AttrError>)
        ensures
            variant_result_view(r) == parse_spec(items@, help_key(), false),
    {
        proof {
            reveal_strlit("name");
            reveal_strlit("help");
            reveal(parse_spec);
            assert("help"@[0] != "name"@[0]);
        }
        let r = parse_items(items, "help", false);
        match r {
            Ok(a) => {
                proof {
                    let s = items@;
                    assert forall|j: int| 0 <= j < s.len() implies (#[trigger] s[j]).value is Some by {
                        assert(fault_at(s, j, help_key(), false) is None);
                        assert(!is_unknown_at(s, j, help_key(), false));
                    }
                    lemma_no_words(s);
                }
                Ok(VariantAttributes { name: a.name, help: a.about })
            },
            Err(e) => Err(e),
        }
    }

    /// The name of the member: the given one, else its identifier in lower
    /// case.
    pub fn attribute_name(&self, ident: &String) -> (r: String)
        ensures
            r@ == member_name(self@, ident@),
            self.name is None ==> r@ == lower_of(ident@),
    {
        match &self.name {
            Some(n) => n.clone(),
            None => lowercase(ident.as_str()),
        }
    }

    /// The help text of the member: the given one, else its identifier.
    pub fn attribute_about(&self, ident: &String) -> (r: String)
        ensures
            r@ == member_about(self@, ident@),
            self.help is None ==> r@ == ident@,
    {
        match &self.help {
            Some(h) => h.clone(),
            None => ident.clone(),
        }
    }
}

/// A list whose items all carry a value has no bare words.
proof fn lemma_no_words(s: Seq<Annotation>)
    requires
        forall|j: int| 0 <= j < s.len() ==> (#[trigger] s[j]).value is Some,
    ensures
        words_of(s) == Seq::<Seq<char>>::empty(),
    decreases s.len(),
{
    if s.len() > 0 {
        let t = s.drop_last();
        assert forall|j: int| 0 <= j < t.len() implies (#[trigger] t[j]).value is Some by {
            assert(t[j] == s[j]);
        }
        lemma_no_words(t);
    }
}

pub open spec fn member_name(a: VariantAttributesView, ident: Seq<char>) -> Seq<char> {
    match a.name {
        Some(n) => n,
        None => lower_of(ident),
    }
}

pub open spec fn member_about(a: VariantAttributesView, ident: Seq<char>) -> Seq<char> {
    match a.help {
        Some(h) => h,
        None => ident,
    }
}

} // verus!
