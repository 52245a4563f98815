//! Selectors: conjunctions of attribute comparisons, and their text form.
//!
//! The text form is `<attr>=<value>` clauses joined by `AND`. A value is a
//! bare token or a double-quoted string; the attributes are `role`, `name`,
//! `automation_id` and `class_name`. Comparisons are exact and case-sensitive.

use vstd::prelude::*;
use vstd::string::*;
use crate::element::{ElementView, UIElement};
use crate::errors::{AutomationError, ErrorKind};

verus! {

/// An attribute that a selector can compare.
#[derive(Debug, Clone, Copy, PartialEq, Eq, Structural)]
pub enum Attribute {
    Role,
    Name,
    AutomationId,
    ClassName,
}

/// One comparison: the attribute must be present and equal to the value.
#[derive(Debug)]
pub struct Condition {
    pub attribute: Attribute,
    pub value: String,
}

/// The mathematical value of a [`Condition`].
pub ghost struct ConditionView {
    pub attribute: Attribute,
    pub value: Seq<char>,
}

impl View for Condition {
    type V = ConditionView;

    open spec fn view(&self) -> ConditionView {
        ConditionView { attribute: self.attribute, value: self.value@ }
    }
}

impl Clone for Condition {
    fn clone(&self) -> (r: Condition)
        ensures
            r@ == self@,
    {
        Condition { attribute: self.attribute, value: self.value.clone() }
    }
}

/// A conjunction of comparisons. Its value is the sequence of its
/// conditions.
#[derive(Debug)]
pub struct Selector {
    pub conditions: Vec<Condition>,
}

impl View for Selector {
    type V = Seq<ConditionView>;

    open spec fn view(&self) -> Seq<ConditionView> {
        Seq::new(self.conditions@.len(), |k: int| self.conditions@[k]@)
    }
}

/// What an element holds for an attribute.
pub open spec fn attribute_of(e: ElementView, a: Attribute) -> Option<Seq<char>> {
    match a {
        Attribute::Role => e.role,
        Attribute::Name => e.name,
        Attribute::AutomationId => e.automation_id,
        Attribute::ClassName => e.class_name,
    }
}

/// A condition holds of an element that has the attribute with exactly the
/// condition's value. An absent attribute satisfies no condition.
pub open spec fn condition_holds(c: ConditionView, e: ElementView) -> bool {
    attribute_of(e, c.attribute) == Some(c.value)
}

/// A selector matches an element of which all its conditions hold.
pub open spec fn selector_matches(s: Seq<ConditionView>, e: ElementView) -> bool {
    forall|k: int| 0 <= k < s.len() ==> condition_holds(#[trigger] s[k], e)
}

impl Condition {
    /// Whether this condition holds of `element`.
    pub fn holds(&self, element: &UIElement) -> (b: bool)
        ensures
            b == condition_holds(self@, element@),
    {
        let held = match self.attribute {
            Attribute::Role => &element.role,
            Attribute::Name => &element.name,
            Attribute::AutomationId => &element.automation_id,
            Attribute::ClassName => &element.class_name,
        };
        match held {
            Some(text) => *text == self.value,
            None => false,
        }
    }
}

impl Clone for Selector {
    fn clone(&self) -> (r: Selector)
        ensures
            r@ == self@,
    {
        let mut conditions: Vec<Condition> = Vec::new();
        let mut k: usize = 0;
        while k < self.conditions.len()
            invariant
                k <= self.conditions@.len(),
                conditions@.len() == k,
                forall|j: int| 0 <= j < k ==> (#[trigger] conditions@[j])@ == self.conditions@[j]@,
            decreases self.conditions@.len() - k,
        {
            conditions.push(self.conditions[k].clone());
            k += 1;
        }
        let r = Selector { conditions };
        assert(r@ =~= self@);
        r
    }
}

impl Selector {
    /// Whether this selector matches `element`.
    pub fn matches(&self, element: &UIElement) -> (b: bool)
        ensures
            b == selector_matches(self@, element@),
    {
        let mut k: usize = 0;
        while k < self.conditions.len()
            invariant
                k <= self.conditions@.len(),
                forall|j: int| 0 <= j < k ==> condition_holds(#[trigger] self@[j], element@),
            decreases self.conditions@.len() - k,
        {
            if !self.conditions[k].holds(element) {
                assert(!condition_holds(self@[k as int], element@));
                return false;
            }
            k += 1;
        }
        true
    }
}

/// The name of an attribute in selector text.
pub open spec fn attribute_name(a: Attribute) -> Seq<char> {
    match a {
        Attribute::Role => seq!['r', 'o', 'l', 'e'],
        Attribute::Name => seq!['n', 'a', 'm', 'e'],
        Attribute::AutomationId => seq![
            'a',
            'u',
            't',
            'o',
            'm',
            'a',
            't',
            'i',
            'o',
            'n',
            '_',
            'i',
            'd',
        ],
        Attribute::ClassName => seq!['c', 'l', 'a', 's', 's', '_', 'n', 'a', 'm', 'e'],
    }
}

/// The attribute with the given name, if there is one.
pub open spec fn attribute_named(key: Seq<char>) -> Option<Attribute> {
    if key == attribute_name(Attribute::Role) {
        Some(Attribute::Role)
    } else if key == attribute_name(Attribute::Name) {
        Some(Attribute::Name)
    } else if key == attribute_name(Attribute::AutomationId) {
        Some(Attribute::AutomationId)
    } else if key == attribute_name(Attribute::ClassName) {
        Some(Attribute::ClassName)
    } else {
        None
    }
}

impl Attribute {
    /// The name of this attribute in selector text.
    pub fn name(&self) -> (n: &'static str)
        ensures
            n@ == attribute_name(*self),
    {
        proof {
            reveal_strlit("role");
            reveal_strlit("name");
            reveal_strlit("automation_id");
            reveal_strlit("class_name");
        }
        match self {
            Attribute::Role => {
                assert("role"@ =~= attribute_name(Attribute::Role));
                "role"
            },
            Attribute::Name => {
                assert("name"@ =~= attribute_name(Attribute::Name));
                "name"
            },
            Attribute::AutomationId => {
                assert("automation_id"@ =~= attribute_name(Attribute::AutomationId));
                "automation_id"
            },
            Attribute::ClassName => {
                assert("class_name"@ =~= attribute_name(Attribute::ClassName));
                "class_name"
            },
        }
    }
}

/// Blank characters separate clauses from `AND`.
pub open spec fn is_space(c: char) -> bool {
    c == ' ' || c == '\t'
}

/// What a scan over selector text looks for.
#[derive(Debug, Clone, Copy, PartialEq, Eq, Structural)]
pub enum Stop {
    /// The end of an attribute name: `=`, a blank or a quote.
    KeyEnd,
    /// The end of a bare value: a blank or a quote.
    BareEnd,
    /// A double quote.
    Quote,
    /// Anything but a blank.
    NonSpace,
}

/// Whether a scan for `stop` ends at the character `c`.
pub open spec fn stops_at(stop: Stop, c: char) -> bool {
    match stop {
        Stop::KeyEnd => c == '=' || is_space(c) || c == '"',
        Stop::BareEnd => is_space(c) || c == '"',
        Stop::Quote => c == '"',
        Stop::NonSpace => !is_space(c),
    }
}

/// The first position from `i` on at which a scan for `stop` ends: the
/// position of the first such character, or the end of the text.
pub open spec fn scan(s: Seq<char>, i: int, stop: Stop) -> int
    decreases s.len() - i,
{
    if i < 0 || i >= s.len() || stops_at(stop, s[i]) {
        i
    } else {
        scan(s, i + 1, stop)
    }
}

/// A scan ends inside the text or at its end, passes over no character that
/// it looks for, and ends on one unless it ends at the end of the text.
pub proof fn lemma_scan(s: Seq<char>, i: int, stop: Stop)
    requires
        0 <= i <= s.len(),
    ensures
        i <= scan(s, i, stop) <= s.len(),
        forall|x: int| i <= x < scan(s, i, stop) ==> !stops_at(stop, #[trigger] s[x]),
        scan(s, i, stop) < s.len() ==> stops_at(stop, s[scan(s, i, stop)]),
    decreases s.len() - i,
{
    if i < s.len() && !stops_at(stop, s[i]) {
        lemma_scan(s, i + 1, stop);
    }
}

fn stops_here(stop: Stop, c: char) -> (b: bool)
    ensures
        b == stops_at(stop, c),
{
    let blank = c == ' ' || c == '\t';
    match stop {
        Stop::KeyEnd => c == '=' || blank || c == '"',
        Stop::BareEnd => blank || c == '"',
        Stop::Quote => c == '"',
        Stop::NonSpace => !blank,
    }
}

fn scan_text(text: &str, len: usize, i: usize, stop: Stop) -> (j: usize)
    requires
        len == text@.len(),
        i <= len,
    ensures
        j == scan(text@, i as int, stop),
        i <= j <= len,
{
    let mut j: usize = i;
    while j < len && !stops_here(stop, text.get_char(j))
        invariant
            i <= j <= len,
            len == text@.len(),
            scan(text@, i as int, stop) == scan(text@, j as int, stop),
        decreases len - j,
    {
        j += 1;
    }
    j
}

fn range_equals(text: &str, from: usize, to: usize, word: &str) -> (b: bool)
    requires
        from <= to <= text@.len(),
    ensures
        b == (text@.subrange(from as int, to as int) == word@),
{
    let n = word.unicode_len();
    if to - from != n {
        return false;
    }
    let ghost part = text@.subrange(from as int, to as int);
    let mut k: usize = 0;
    while k < n
        invariant
            k <= n,
            n == word@.len(),
            to - from == n,
            from <= to <= text@.len(),
            part == text@.subrange(from as int, to as int),
            forall|x: int| 0 <= x < k ==> part[x] == word@[x],
        decreases n - k,
    {
        if text.get_char(from + k) != word.get_char(k) {
            assert(part[k as int] != word@[k as int]);
            return false;
        }
        k += 1;
    }
    assert(part =~= word@);
    true
}

fn attribute_in(text: &str, from: usize, to: usize) -> (a: Option<Attribute>)
    requires
        from <= to <= text@.len(),
    ensures
        a == attribute_named(text@.subrange(from as int, to as int)),
{
    if range_equals(text, from, to, Attribute::Role.name()) {
        Some(Attribute::Role)
    } else if range_equals(text, from, to, Attribute::Name.name()) {
        Some(Attribute::Name)
    } else if range_equals(text, from, to, Attribute::AutomationId.name()) {
        Some(Attribute::AutomationId)
    } else if range_equals(text, from, to, Attribute::ClassName.name()) {
        Some(Attribute::ClassName)
    } else {
        None
    }
}

/// The clause that starts at position `i`, and the position after it.
///
/// A clause is an attribute name, `=`, and a value: either the characters
/// between two double quotes, or a bare token that is not empty and runs up to
/// a blank or the end of the text. There is no clause where `=` is missing,
/// the name is unknown, a quote is not closed, or a quote stands in or right
/// after a bare token.
pub open spec fn parse_clause(s: Seq<char>, i: int) -> Option<(ConditionView, int)> {
    let eq = scan(s, i, Stop::KeyEnd);
    if eq >= s.len() || s[eq] != '=' {
        None
    } else {
        match attribute_named(s.subrange(i, eq)) {
            None => None,
            Some(attribute) => {
                let v = eq + 1;
                if v < s.len() && s[v] == '"' {
                    let close = scan(s, v + 1, Stop::Quote);
                    if close >= s.len() {
                        None
                    } else {
                        Some((ConditionView { attribute, value: s.subrange(v + 1, close) }, close + 1))
                    }
                } else {
                    let end = scan(s, v, Stop::BareEnd);
                    if end == v || end < s.len() && s[end] == '"' {
                        None
                    } else {
                        Some((ConditionView { attribute, value: s.subrange(v, end) }, end))
                    }
                }
            },
        }
    }
}

/// Whether the word `AND`, followed by a blank, stands at position `k`.
pub open spec fn and_at(s: Seq<char>, k: int) -> bool {
    &&& 0 <= k
    &&& k + 3 < s.len()
    &&& s[k] == 'A'
    &&& s[k + 1] == 'N'
    &&& s[k + 2] == 'D'
    &&& is_space(s[k + 3])
}

/// The clauses from position `i` to the end of the text: one clause, then
/// either nothing but blanks, or blanks, `AND`, blanks and further clauses.
pub open spec fn parse_clauses(s: Seq<char>, i: int) -> Option<Seq<ConditionView>>
    decreases s.len() - i,
    when 0 <= i <= s.len()
    via parse_clauses_decreases
{
    match parse_clause(s, i) {
        None => None,
        Some((c, next)) => {
            let k = scan(s, next, Stop::NonSpace);
            if k >= s.len() {
                Some(seq![c])
            } else if k > next && and_at(s, k) {
                match parse_clauses(s, scan(s, k + 3, Stop::NonSpace)) {
                    None => None,
                    Some(rest) => Some(seq![c] + rest),
                }
            } else {
                None
            }
        },
    }
}

#[via_fn]
proof fn parse_clauses_decreases(s: Seq<char>, i: int) {
    lemma_parse_clause(s, i);
    match parse_clause(s, i) {
        None => {},
        Some((c, next)) => {
            lemma_scan(s, next, Stop::NonSpace);
            let k = scan(s, next, Stop::NonSpace);
            if k < s.len() && k > next && and_at(s, k) {
                lemma_scan(s, k + 3, Stop::NonSpace);
            }
        },
    }
}

/// A clause is not empty and ends inside the text.
pub proof fn lemma_parse_clause(s: Seq<char>, i: int)
    requires
        0 <= i <= s.len(),
    ensures
        parse_clause(s, i) is Some ==> i < parse_clause(s, i).unwrap().1 <= s.len(),
{
    lemma_scan(s, i, Stop::KeyEnd);
    let eq = scan(s, i, Stop::KeyEnd);
    if eq < s.len() {
        lemma_scan(s, eq + 1, Stop::BareEnd);
        if eq + 1 < s.len() {
            lemma_scan(s, eq + 2, Stop::Quote);
        }
    }
}

/// The selector that a text denotes, or `None` where the text is not in the
/// grammar. Blanks before the first clause and after the last are passed over.
pub open spec fn parse_selector(s: Seq<char>) -> Option<Seq<ConditionView>> {
    parse_clauses(s, scan(s, 0, Stop::NonSpace))
}

/// The clauses found so far, followed by those still to come.
pub open spec fn followed_by(found: Seq<ConditionView>, rest: Option<Seq<ConditionView>>) -> Option<
    Seq<ConditionView>,
> {
    match rest {
        Some(r) => Some(found + r),
        None => None,
    }
}

fn clause_at(text: &str, len: usize, i: usize) -> (r: Option<(Condition, usize)>)
    requires
        len == text@.len(),
        i <= len,
    ensures
        r is Some <==> parse_clause(text@, i as int) is Some,
        r is Some ==> r.unwrap().0@ == parse_clause(text@, i as int).unwrap().0 && r.unwrap().1
            == parse_clause(text@, i as int).unwrap().1 && i < r.unwrap().1 <= len,
{
    proof {
        lemma_parse_clause(text@, i as int);
    }
    let eq = scan_text(text, len, i, Stop::KeyEnd);
    if eq >= len || text.get_char(eq) != '=' {
        return None;
    }
    let attribute = match attribute_in(text, i, eq) {
        None => {
            return None;
        },
        Some(a) => a,
    };
    let v = eq + 1;
    if v < len && text.get_char(v) == '"' {
        let close = scan_text(text, len, v + 1, Stop::Quote);
        if close >= len {
            return None;
        }
        let value = text.substring_char(v + 1, close).to_owned();
        Some((Condition { attribute, value }, close + 1))
    } else {
        let end = scan_text(text, len, v, Stop::BareEnd);
        if end == v || (end < len && text.get_char(end) == '"') {
            return None;
        }
        let value = text.substring_char(v, end).to_owned();
        Some((Condition { attribute, value }, end))
    }
}

fn and_here(text: &str, len: usize, k: usize) -> (b: bool)
    requires
        len == text@.len(),
        k <= len,
    ensures
        b == and_at(text@, k as int),
{
    if len - k <= 3 {
        return false;
    }
    let blank = text.get_char(k + 3);
    text.get_char(k) == 'A' && text.get_char(k + 1) == 'N' && text.get_char(k + 2) == 'D' && (blank
        == ' ' || blank == '\t')
}

impl Selector {
    /// Reads a selector from its text form.
    ///
    /// Returns the selector that the text denotes. Text that is not in the
    /// grammar is refused with `InvalidSelector`, which carries the text.
    pub fn parse(text: &str) -> (r: Result<Selector, AutomationError>)
        ensures
            match parse_selector(text@) {
                Some(conditions) => r is Ok && r.unwrap()@ == conditions,
                None => r is Err && r.unwrap_err().kind_spec() == ErrorKind::InvalidSelector
                    && r.unwrap_err().message_spec() == text@,
            },
    {
        let len = text.unicode_len();
        let mut i = scan_text(text, len, 0, Stop::NonSpace);
        let mut conditions: Vec<Condition> = Vec::new();
        let ghost mut found: Seq<ConditionView> = Seq::empty();
        loop
            invariant
                len == text@.len(),
                i <= len,
                found == Seq::new(conditions@.len(), |k: int| conditions@[k]@),
                parse_selector(text@) == followed_by(found, parse_clauses(text@, i as int)),
            decreases len - i,
        {
            let (condition, next) = match clause_at(text, len, i) {
                None => {
                    return Err(AutomationError::InvalidSelector(text.to_owned()));
                },
                Some(pair) => pair,
            };
            let k = scan_text(text, len, next, Stop::NonSpace);
            let ghost c = condition@;
            proof {
                assert(found.push(c) =~= found + seq![c]);
            }
            conditions.push(condition);
            proof {
                assert(Seq::new(conditions@.len(), |k: int| conditions@[k]@) =~= found.push(c));
            }
            if k >= len {
                let r = Selector { conditions };
                assert(r@ =~= found + seq![c]);
                return Ok(r);
            }
            if !(k > next && and_here(text, len, k)) {
                return Err(AutomationError::InvalidSelector(text.to_owned()));
            }
            let after = scan_text(text, len, k + 3, Stop::NonSpace);
            proof {
                let rest = parse_clauses(text@, after as int);
                if rest is Some {
                    assert(found + (seq![c] + rest.unwrap()) =~= found.push(c) + rest.unwrap());
                }
                found = found.push(c);
            }
            i = after;
        }
    }
}

/// A scan ends at the first position that it looks for: where it passes
/// over nothing that it looks for up to `j`, and `j` is the end of the text
/// or holds what it looks for, it ends at `j`.
pub proof fn lemma_scan_ends_at(s: Seq<char>, i: int, j: int, stop: Stop)
    requires
        0 <= i <= j <= s.len(),
        forall|x: int| i <= x < j ==> !stops_at(stop, #[trigger] s[x]),
        j == s.len() || stops_at(stop, s[j]),
    ensures
        scan(s, i, stop) == j,
    decreases j - i,
{
    if i < j {
        lemma_scan_ends_at(s, i + 1, j, stop);
    }
}

/// No attribute name holds a character that ends a name, and each name
/// belongs to one attribute only.
pub proof fn lemma_attribute_names(a: Attribute)
    ensures
        attribute_name(a).len() > 0,
        forall|x: int|
            0 <= x < attribute_name(a).len() ==> !stops_at(
                Stop::KeyEnd,
                #[trigger] attribute_name(a)[x],
            ),
        !is_space(attribute_name(a)[0]),
        attribute_named(attribute_name(a)) == Some(a),
{
    let role = attribute_name(Attribute::Role);
    let name = attribute_name(Attribute::Name);
    let id = attribute_name(Attribute::AutomationId);
    let class = attribute_name(Attribute::ClassName);
    assert(role.len() == 4 && name.len() == 4 && id.len() == 13 && class.len() == 10);
    assert(role[0] == 'r' && name[0] == 'n');
    assert(role != name);
    assert(id != role && id != name && class != role && class != name && class != id);
}

/// Whether a value can stand between double quotes: it holds none.
pub open spec fn quotable(v: Seq<char>) -> bool {
    forall|x: int| 0 <= x < v.len() ==> #[trigger] v[x] != '"'
}

/// The text of a clause, with its value in double quotes.
pub open spec fn clause_text(c: ConditionView) -> Seq<char> {
    attribute_name(c.attribute) + seq!['=', '"'] + c.value + seq!['"']
}

/// The word that joins two clauses, with a blank on either side.
pub open spec fn and_text() -> Seq<char> {
    seq![' ', 'A', 'N', 'D', ' ']
}

/// The text of the conditions from the `k`-th on: their clauses, joined by
/// `AND`.
pub open spec fn selector_text(s: Seq<ConditionView>, k: int) -> Seq<char>
    decreases s.len() - k,
    when 0 <= k
{
    if k >= s.len() {
        Seq::empty()
    } else if k + 1 == s.len() {
        clause_text(s[k])
    } else {
        clause_text(s[k]) + and_text() + selector_text(s, k + 1)
    }
}

/// The text of a clause, wherever it stands in a text, is read as that
/// clause.
pub proof fn lemma_clause_parses(t: Seq<char>, i: int, c: ConditionView)
    requires
        0 <= i,
        i + clause_text(c).len() <= t.len(),
        t.subrange(i, i + clause_text(c).len()) == clause_text(c),
        quotable(c.value),
    ensures
        parse_clause(t, i) == Some((c, i + clause_text(c).len())),
{
    let name = attribute_name(c.attribute);
    let len = name.len() as int;
    let text = clause_text(c);
    let part = t.subrange(i, i + text.len());
    lemma_attribute_names(c.attribute);
    assert forall|x: int| 0 <= x < text.len() implies t[i + x] == #[trigger] text[x] by {
        assert(part[x] == t[i + x]);
    }
    assert forall|x: int| i <= x < i + len implies !stops_at(Stop::KeyEnd, #[trigger] t[x]) by {
        assert(t[x] == text[x - i]);
        assert(text[x - i] == name[x - i]);
    }
    assert(text[len] == '=');
    assert(t[i + len] == '=');
    lemma_scan_ends_at(t, i, i + len, Stop::KeyEnd);
    assert(t.subrange(i, i + len) =~= name) by {
        assert forall|x: int| 0 <= x < len implies t.subrange(i, i + len)[x] == name[x] by {
            assert(t[i + x] == text[x]);
            assert(text[x] == name[x]);
        }
    }
    let v = i + len + 1;
    assert(text[len + 1] == '"');
    assert(t[v] == '"');
    let close = v + 1 + c.value.len();
    assert forall|x: int| v + 1 <= x < close implies !stops_at(Stop::Quote, #[trigger] t[x]) by {
        assert(t[x] == text[x - i]);
        assert(text[x - i] == c.value[x - v - 1]);
    }
    assert(text[len + 2 + c.value.len()] == '"');
    assert(t[close] == '"');
    lemma_scan_ends_at(t, v + 1, close, Stop::Quote);
    assert(t.subrange(v + 1, close) =~= c.value) by {
        assert forall|x: int| 0 <= x < c.value.len() implies t.subrange(v + 1, close)[x]
            == c.value[x] by {
            assert(t[v + 1 + x] == text[len + 2 + x]);
            assert(text[len + 2 + x] == c.value[x]);
        }
    }
}

/// The text of a list of conditions, at the end of any text, is read as
/// those conditions.
pub proof fn lemma_text_parses(t: Seq<char>, i: int, s: Seq<ConditionView>, k: int)
    requires
        0 <= k < s.len(),
        0 <= i <= t.len(),
        t.subrange(i, t.len() as int) == selector_text(s, k),
        forall|j: int| 0 <= j < s.len() ==> quotable(#[trigger] s[j].value),
    ensures
        parse_clauses(t, i) == Some(s.subrange(k, s.len() as int)),
    decreases s.len() - k,
{
    let c = s[k];
    let clause = clause_text(c);
    let n = clause.len() as int;
    let whole = selector_text(s, k);
    let tail = t.subrange(i, t.len() as int);
    let next = i + n;
    lemma_attribute_names(c.attribute);
    assert(tail.len() == t.len() - i);
    assert forall|x: int| 0 <= x < whole.len() implies t[i + x] == #[trigger] whole[x] by {
        assert(tail[x] == t[i + x]);
    }
    assert(t.subrange(i, next) =~= clause) by {
        assert forall|x: int| 0 <= x < n implies t.subrange(i, next)[x] == clause[x] by {
            assert(t[i + x] == whole[x]);
            assert(whole[x] == clause[x]);
        }
    }
    lemma_clause_parses(t, i, c);
    if k + 1 == s.len() {
        assert(next == t.len());
        assert(s.subrange(k, s.len() as int) =~= seq![c]);
    } else {
        let rest = selector_text(s, k + 1);
        let d = s[k + 1];
        lemma_attribute_names(d.attribute);
        let first = attribute_name(d.attribute)[0];
        assert(rest.len() > 0 && rest[0] == first) by {
            let head = clause_text(d);
            assert(head[0] == first);
            if k + 2 == s.len() {
            } else {
                assert(rest == head + and_text() + selector_text(s, k + 2));
                assert(rest[0] == head[0]);
            }
        }
        let joint = and_text();
        assert(whole == clause + joint + rest);
        assert forall|x: int| 0 <= x < 5 implies t[next + x] == #[trigger] joint[x] by {
            assert(t[i + (n + x)] == whole[n + x]);
            assert(whole[n + x] == joint[x]);
        }
        assert(t[next] == joint[0] && t[next + 1] == joint[1] && t[next + 2] == joint[2] && t[next
            + 3] == joint[3] && t[next + 4] == joint[4]);
        assert(t[next + 5] == first) by {
            assert(t[i + (n + 5)] == whole[n + 5]);
            assert(whole[n + 5] == rest[0]);
        }
        assert forall|x: int| next <= x < next + 1 implies !stops_at(
            Stop::NonSpace,
            #[trigger] t[x],
        ) by {}
        lemma_scan_ends_at(t, next, next + 1, Stop::NonSpace);
        let at = next + 1;
        assert(and_at(t, at));
        assert forall|x: int| at + 3 <= x < at + 4 implies !stops_at(
            Stop::NonSpace,
            #[trigger] t[x],
        ) by {}
        lemma_scan_ends_at(t, at + 3, at + 4, Stop::NonSpace);
        let resume = next + 5;
        assert(t.subrange(resume, t.len() as int) =~= rest) by {
            assert forall|x: int| 0 <= x < rest.len() implies t.subrange(resume, t.len() as int)[x]
                == rest[x] by {
                assert(t[i + (n + 5 + x)] == whole[n + 5 + x]);
                assert(whole[n + 5 + x] == rest[x]);
            }
        }
        lemma_text_parses(t, resume, s, k + 1);
        assert(seq![c] + s.subrange(k + 1, s.len() as int) =~= s.subrange(k, s.len() as int));
    }
}

/// Writing a selector down and reading the text gives the selector back,
/// for every selector with at least one condition whose values hold no
/// double quote.
pub proof fn lemma_text_round_trip(s: Seq<ConditionView>)
    requires
        s.len() > 0,
        forall|j: int| 0 <= j < s.len() ==> quotable(#[trigger] s[j].value),
    ensures
        parse_selector(selector_text(s, 0)) == Some(s),
{
    let t = selector_text(s, 0);
    lemma_attribute_names(s[0].attribute);
    let head = clause_text(s[0]);
    assert(head[0] == attribute_name(s[0].attribute)[0]);
    assert(t.len() > 0 && t[0] == head[0]) by {
        if s.len() > 1 {
            assert(t == head + and_text() + selector_text(s, 1));
            assert(t[0] == head[0]);
        }
    }
    lemma_scan_ends_at(t, 0, 0, Stop::NonSpace);
    assert(t.subrange(0, t.len() as int) =~= t);
    lemma_text_parses(t, 0, s, 0);
    assert(s.subrange(0, s.len() as int) =~= s);
}

impl Condition {
    /// The text of this condition as a clause, with the value in double
    /// quotes.
    pub fn to_text(&self) -> (text: String)
        ensures
            text@ == clause_text(self@),
    {
        proof {
            reveal_strlit("=\"");
            reveal_strlit("\"");
            assert("=\""@ =~= seq!['=', '"']);
            assert("\""@ =~= seq!['"']);
        }
        let mut text = self.attribute.name().to_owned();
        text.append("=\"");
        text.append(self.value.as_str());
        text.append("\"");
        text
    }
}

impl Selector {
    /// The text of this selector: its clauses joined by `AND`, each value in
    /// double quotes. Reading the text gives the selector back, unless the
    /// selector is empty or a value holds a double quote.
    pub fn to_text(&self) -> (text: String)
        ensures
            text@ == selector_text(self@, 0),
    {
        proof {
            reveal_strlit(" AND ");
            assert(" AND "@ =~= and_text());
        }
        let n = self.conditions.len();
        let mut text = String::new();
        let mut k: usize = n;
        while k > 0
            invariant
                n == self.conditions@.len(),
                k <= n,
                text@ == selector_text(self@, k as int),
                " AND "@ == and_text(),
            decreases k,
        {
            k -= 1;
            let mut longer = self.conditions[k].to_text();
            assert(self@[k as int] == self.conditions@[k as int]@);
            if k + 1 < n {
                longer.append(" AND ");
                longer.append(text.as_str());
            }
            text = longer;
        }
        text
    }
}

} // verus!
