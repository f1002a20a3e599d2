//! Domain names: labels, wire form, zones and the canonical order.
use hickory_proto::rr;
use vstd::prelude::*;

use crate::bytes::append;
use crate::bytes::contents;
use crate::bytes::lemma_octets_le_antisymmetric;
use crate::bytes::lower_octet;
use crate::bytes::lower_octets;
use crate::bytes::octets_le;
use crate::bytes::to_lower;
use crate::text::ascii_text;
use crate::text::first_place;
use crate::text::lemma_first_place;
use crate::text::lemma_first_place_is;

verus! {

/// The longest wire form of a name, the root octet counted.
pub const MAX_NAME_LEN: usize = 255;

/// The longest label.
pub const MAX_LABEL_LEN: usize = 63;

/// The octets that `labels` take on the wire, each with its length octet, without the root.
pub open spec fn labels_len(labels: Seq<Seq<u8>>) -> nat
    decreases labels.len(),
{
    if labels.len() == 0 {
        0
    } else {
        labels[0].len() + 1 + labels_len(labels.drop_first())
    }
}

/// Labels that a name can have: none empty or over 63 octets, and 255 octets in all on the wire.
pub open spec fn valid_labels(labels: Seq<Seq<u8>>) -> bool {
    &&& forall|i: int| 0 <= i < labels.len() ==> 1 <= (#[trigger] labels[i]).len() <= MAX_LABEL_LEN
    &&& labels_len(labels) + 1 <= MAX_NAME_LEN
}

/// The labels on the wire, each behind its length, without the root.
pub open spec fn labels_wire(labels: Seq<Seq<u8>>) -> Seq<u8>
    decreases labels.len(),
{
    if labels.len() == 0 {
        seq![]
    } else {
        seq![labels[0].len() as u8] + labels[0] + labels_wire(labels.drop_first())
    }
}

/// A name on the wire: its labels and the root octet.
pub open spec fn name_wire(labels: Seq<Seq<u8>>) -> Seq<u8> {
    labels_wire(labels).push(0)
}

/// The labels with every ASCII capital letter made small.
pub open spec fn lower_labels(labels: Seq<Seq<u8>>) -> Seq<Seq<u8>> {
    labels.map_values(|l: Seq<u8>| lower_octets(l))
}

/// `zone` holds `name`: the labels of `zone` end `name`, whatever the case of their letters.
pub open spec fn zone_of(zone: Seq<Seq<u8>>, name: Seq<Seq<u8>>) -> bool {
    &&& zone.len() <= name.len()
    &&& lower_labels(name.skip(name.len() - zone.len())) == lower_labels(zone)
}

/// The number of labels, without a leading `*`.
pub open spec fn counted_labels(labels: Seq<Seq<u8>>) -> nat {
    if labels.len() > 0 && labels[0] == seq![42u8] {
        (labels.len() - 1) as nat
    } else {
        labels.len()
    }
}

/// What a name holds.
#[verifier::ext_equal]
pub struct NameView {
    pub labels: Seq<Seq<u8>>,
    pub fqdn: bool,
}

/// The name `\000.<name>`, or `name` itself where that would be too long, fully qualified.
pub open spec fn black_lies_next(name: NameView) -> NameView {
    NameView {
        labels: if labels_len(name.labels) + 3 <= MAX_NAME_LEN {
            seq![seq![0u8]] + name.labels
        } else {
            name.labels
        },
        fqdn: true,
    }
}

/// A domain name.
pub struct DomainName {
    labels: Vec<Vec<u8>>,
    fqdn: bool,
}

impl View for DomainName {
    type V = NameView;

    closed spec fn view(&self) -> NameView {
        NameView { labels: contents(self.labels@), fqdn: self.fqdn }
    }
}

impl DomainName {
    #[verifier::type_invariant]
    closed spec fn valid(self) -> bool {
        valid_labels(contents(self.labels@))
    }
}

impl Clone for DomainName {
    fn clone(&self) -> (r: Self)
        ensures
            r@ == self@,
    {
        proof {
            use_type_invariant(self);
        }
        let labels = copy_labels(&self.labels);
        DomainName { labels, fqdn: self.fqdn }
    }
}

/// Copies the labels.
fn copy_labels(labels: &Vec<Vec<u8>>) -> (r: Vec<Vec<u8>>)
    ensures
        contents(r@) == contents(labels@),
{
    let mut r: Vec<Vec<u8>> = Vec::new();
    let mut i: usize = 0;
    while i < labels.len()
        invariant
            i <= labels@.len(),
            r@.len() == i,
            forall|k: int| 0 <= k < i ==> (#[trigger] r@[k])@ == labels@[k]@,
        decreases labels.len() - i,
    {
        r.push(vstd::slice::slice_to_vec(labels[i].as_slice()));
        i += 1;
    }
    assert(contents(r@) =~= contents(labels@));
    r
}

/// Cutting labels off the front leaves no more octets.
proof fn lemma_labels_len_skip(labels: Seq<Seq<u8>>, n: int)
    requires
        0 <= n <= labels.len(),
    ensures
        labels_len(labels.skip(n)) + n <= labels_len(labels),
    decreases n,
{
    if n == 0 {
        assert(labels.skip(0) =~= labels);
    } else {
        assert(labels.drop_first().skip(n - 1) =~= labels.skip(n));
        lemma_labels_len_skip(labels.drop_first(), n - 1);
    }
}

/// A name has no more labels than octets.
pub proof fn lemma_label_count(labels: Seq<Seq<u8>>)
    ensures
        labels.len() <= labels_len(labels),
{
    lemma_labels_len_skip(labels, labels.len() as int);
}

impl DomainName {
    /// A name from its labels, where they are labels that a name can have.
    pub fn from_labels(labels: Vec<Vec<u8>>, fqdn: bool) -> (r: Option<DomainName>)
        ensures
            match r {
                Some(n) => valid_labels(contents(labels@)) && n@ == (NameView {
                    labels: contents(labels@),
                    fqdn,
                }),
                None => !valid_labels(contents(labels@)),
            },
    {
        let ghost all = contents(labels@);
        let mut total: usize = 0;
        let mut i: usize = 0;
        assert(all.skip(0) =~= all);
        while i < labels.len()
            invariant
                all == contents(labels@),
                i <= labels@.len(),
                total < MAX_NAME_LEN,
                total + labels_len(all.skip(i as int)) == labels_len(all),
                forall|k: int| 0 <= k < i ==> 1 <= (#[trigger] all[k]).len() <= MAX_LABEL_LEN,
            decreases labels.len() - i,
        {
            let n: usize = labels[i].len();
            assert(all[i as int] == labels@[i as int]@);
            assert(all.skip(i as int).drop_first() =~= all.skip(i + 1));
            if n == 0 || n > MAX_LABEL_LEN {
                return None;
            }
            total = total + n + 1;
            if total + 1 > MAX_NAME_LEN {
                return None;
            }
            i += 1;
        }
        Some(DomainName { labels, fqdn })
    }

    /// The labels of the name, leftmost first.
    pub fn labels(&self) -> (r: &Vec<Vec<u8>>)
        ensures
            contents(r@) == self@.labels,
            valid_labels(self@.labels),
    {
        proof {
            use_type_invariant(self);
        }
        &self.labels
    }

    /// Whether the name is fully qualified.
    pub fn is_fqdn(&self) -> (r: bool)
        ensures
            r == self@.fqdn,
    {
        self.fqdn
    }

    /// The number of labels, without a leading `*`.
    pub fn num_labels(&self) -> (r: u8)
        ensures
            r == counted_labels(self@.labels),
    {
        proof {
            use_type_invariant(self);
            lemma_label_count(self@.labels);
        }
        let n: usize = self.labels.len();
        if n > 0 {
            assert(self@.labels[0] == self.labels@[0]@);
            let first: &Vec<u8> = &self.labels[0];
            if first.len() == 1 && first[0] == 42 {
                assert(self@.labels[0] =~= seq![42u8]);
                return (n - 1) as u8;
            }
        }
        n as u8
    }

    /// Whether the labels of this name end `name`, whatever the case of their letters.
    pub fn zone_of(&self, name: &DomainName) -> (r: bool)
        ensures
            r == zone_of(self@.labels, name@.labels),
    {
        if self.labels.len() > name.labels.len() {
            return false;
        }
        let shift: usize = name.labels.len() - self.labels.len();
        let ghost zone = self@.labels;
        let ghost tail = name@.labels.skip(shift as int);
        let mut i: usize = 0;
        while i < self.labels.len()
            invariant
                shift + self.labels.len() == name.labels.len(),
                zone == self@.labels,
                tail == name@.labels.skip(shift as int),
                i <= self.labels@.len(),
                forall|k: int|
                    0 <= k < i ==> #[trigger] lower_labels(tail)[k] == lower_labels(zone)[k],
            decreases self.labels.len() - i,
        {
            let same: bool = same_label(&self.labels[i], &name.labels[shift + i]);
            assert(lower_labels(tail)[i as int] == lower_octets(
                name.labels@[shift + i]@,
            ));
            assert(lower_labels(zone)[i as int] == lower_octets(
                self.labels@[i as int]@,
            ));
            if !same {
                return false;
            }
            i += 1;
        }
        assert(lower_labels(tail) =~= lower_labels(zone));
        true
    }

    /// The name with every ASCII capital letter made small.
    pub fn to_lowercase(&self) -> (r: DomainName)
        ensures
            r@ == (NameView { labels: lower_labels(self@.labels), fqdn: self@.fqdn }),
    {
        proof {
            use_type_invariant(self);
        }
        let mut labels: Vec<Vec<u8>> = Vec::new();
        let mut i: usize = 0;
        while i < self.labels.len()
            invariant
                i <= self.labels@.len(),
                labels@.len() == i,
                forall|k: int|
                    0 <= k < i ==> (#[trigger] labels@[k])@ == lower_octets(
                        self.labels@[k]@,
                    ),
            decreases self.labels.len() - i,
        {
            let label: Vec<u8> = lower_label(&self.labels[i]);
            labels.push(label);
            i += 1;
        }
        assert(contents(labels@) =~= lower_labels(self@.labels));
        proof {
            lemma_lower_valid(self@.labels);
        }
        DomainName { labels, fqdn: self.fqdn }
    }

    /// The name `\000.<name>`, which comes right after this one in the canonical order; this name
    /// itself where the longer one would not fit.
    pub fn make_black_lies_next_name(&self) -> (r: DomainName)
        ensures
            r@ == black_lies_next(self@),
    {
        proof {
            use_type_invariant(self);
        }
        let mut labels: Vec<Vec<u8>> = copy_labels(&self.labels);
        let first: Vec<u8> = vec![0u8];
        assert(first@ =~= seq![0u8]);
        labels.insert(0, first);
        proof {
            assert(contents(labels@) =~= seq![seq![0u8]] + self@.labels);
            assert((seq![seq![0u8]] + self@.labels).drop_first() =~= self@.labels);
            assert forall|i: int| 0 <= i < self@.labels.len() + 1 implies 1 <= (#[trigger] (
            seq![seq![0u8]] + self@.labels)[i]).len() <= MAX_LABEL_LEN by {
                if i > 0 {
                    assert((seq![seq![0u8]] + self@.labels)[i] == self@.labels[i - 1]);
                }
            }
        }
        match DomainName::from_labels(labels, true) {
            Some(n) => n,
            None => {
                let same = copy_labels(&self.labels);
                DomainName { labels: same, fqdn: true }
            },
        }
    }
}

/// The wire form of the name.
pub fn name_to_wire(name: &DomainName) -> (r: Vec<u8>)
    ensures
        r@ == name_wire(name@.labels),
{
    proof {
        use_type_invariant(name);
    }
    let ghost all = name@.labels;
    let mut wire: Vec<u8> = Vec::new();
    let mut i: usize = 0;
    assert(all.skip(0) =~= all);
    assert(wire@ + labels_wire(all) =~= labels_wire(all));
    while i < name.labels.len()
        invariant
            all == name@.labels,
            valid_labels(all),
            i <= name.labels@.len(),
            wire@ + labels_wire(all.skip(i as int)) == labels_wire(all),
        decreases name.labels.len() - i,
    {
        let ghost before = wire@;
        assert(all[i as int] == name.labels@[i as int]@);
        assert(all.skip(i as int).drop_first() =~= all.skip(i + 1));
        wire.push(name.labels[i].len() as u8);
        append(&mut wire, name.labels[i].as_slice());
        assert(wire@ + labels_wire(all.skip(i + 1)) =~= before + labels_wire(all.skip(i as int)));
        i += 1;
    }
    assert(wire@ =~= labels_wire(all));
    wire.push(0);
    wire
}

/// The wire form of the name in small letters, as canonical forms ask for.
pub fn name_to_wire_lowercase(name: &DomainName) -> (r: Vec<u8>)
    ensures
        r@ == name_wire(lower_labels(name@.labels)),
{
    let low = name.to_lowercase();
    name_to_wire(&low)
}

/// The label with every ASCII capital letter made small.
fn lower_label(label: &Vec<u8>) -> (r: Vec<u8>)
    ensures
        r@ == lower_octets(label@),
{
    let mut r: Vec<u8> = Vec::new();
    let mut i: usize = 0;
    while i < label.len()
        invariant
            i <= label@.len(),
            r@ == lower_octets(label@).take(i as int),
        decreases label.len() - i,
    {
        r.push(to_lower(label[i]));
        assert(lower_octets(label@).take(i + 1) =~= lower_octets(
            label@,
        ).take(i as int).push(lower_octet(label@[i as int])));
        i += 1;
    }
    assert(r@ =~= lower_octets(label@));
    r
}

/// Whether two labels differ at most in the case of their letters.
fn same_label(a: &Vec<u8>, b: &Vec<u8>) -> (r: bool)
    ensures
        r == (lower_octets(a@) == lower_octets(b@)),
{
    let ghost la = lower_octets(a@);
    let ghost lb = lower_octets(b@);
    if a.len() != b.len() {
        assert(la.len() != lb.len());
        return false;
    }
    let mut i: usize = 0;
    while i < a.len()
        invariant
            a@.len() == b@.len(),
            la == lower_octets(a@),
            lb == lower_octets(b@),
            i <= a@.len(),
            forall|k: int| 0 <= k < i ==> #[trigger] la[k] == lb[k],
        decreases a.len() - i,
    {
        if to_lower(a[i]) != to_lower(b[i]) {
            assert(la[i as int] != lb[i as int]);
            return false;
        }
        i += 1;
    }
    assert(la =~= lb);
    true
}

/// Making letters small keeps the lengths of the labels.
pub proof fn lemma_lower_valid(labels: Seq<Seq<u8>>)
    ensures
        labels_len(lower_labels(labels)) == labels_len(labels),
        valid_labels(lower_labels(labels)) == valid_labels(labels),
    decreases labels.len(),
{
    let low = lower_labels(labels);
    if labels.len() > 0 {
        lemma_lower_valid(labels.drop_first());
        assert(low.drop_first() =~= lower_labels(labels.drop_first()));
    }
    assert forall|i: int| 0 <= i < labels.len() implies (#[trigger] low[i]).len()
        == labels[i].len() by {}
    if valid_labels(low) {
        assert forall|i: int| 0 <= i < labels.len() implies 1 <= (#[trigger] labels[i]).len()
            <= MAX_LABEL_LEN by {
            assert(low[i].len() == labels[i].len());
        }
    }
}

/// A label made of ASCII letters, digits, `_` and, after the first octet, `-`.
pub open spec fn plain_label(label: Seq<u8>) -> bool {
    &&& 1 <= label.len() <= MAX_LABEL_LEN
    &&& forall|i: int|
        0 <= i < label.len() ==> {
            let b = #[trigger] label[i];
            ||| 48 <= b <= 57
            ||| 65 <= b <= 90
            ||| 97 <= b <= 122
            ||| b == 95
            ||| (b == 45 && i > 0)
        }
}

/// The label starts with `xn--`, the mark of an internationalised label.
pub open spec fn punycode_label(label: Seq<u8>) -> bool {
    label.len() >= 4 && label.take(4) == seq![120u8, 110u8, 45u8, 45u8]
}

/// At least one label, each of them plain and without the mark of an internationalised label.
pub open spec fn plain_labels(labels: Seq<Seq<u8>>) -> bool {
    &&& labels.len() > 0
    &&& valid_labels(labels)
    &&& forall|i: int|
        0 <= i < labels.len() ==> plain_label(#[trigger] labels[i]) && !punycode_label(labels[i])
}

/// The octets of a label as characters.
pub open spec fn label_text(label: Seq<u8>) -> Seq<char> {
    label.map_values(|b: u8| b as char)
}

/// The labels as text, with a dot between each two.
pub open spec fn dotted(labels: Seq<Seq<u8>>) -> Seq<char>
    decreases labels.len(),
{
    if labels.len() == 0 {
        seq![]
    } else if labels.len() == 1 {
        label_text(labels[0])
    } else {
        label_text(labels[0]).push('.') + dotted(labels.drop_first())
    }
}

/// The parts of a text between its dots.
pub open spec fn parts_of(text: Seq<char>) -> Seq<Seq<char>>
    decreases text.len(),
    via parts_shrink
{
    let end = first_place(text, '.');
    if end >= text.len() {
        seq![text]
    } else {
        seq![text.take(end)] + parts_of(text.skip(end + 1))
    }
}

#[via_fn]
proof fn parts_shrink(text: Seq<char>) {
    lemma_first_place(text, '.');
}

/// The octets of an ASCII text.
pub open spec fn ascii_octets(text: Seq<char>) -> Seq<u8> {
    text.map_values(|c: char| c as u8)
}

/// The text without a dot at its end.
pub open spec fn without_last_dot(text: Seq<char>) -> Seq<char> {
    if text.len() > 0 && text.last() == '.' {
        text.drop_last()
    } else {
        text
    }
}

/// The name that a text of plain labels with dots between them writes. A dot at the end makes it
/// fully qualified. Other texts are none of these.
pub open spec fn plain_name(text: Seq<char>) -> Option<NameView> {
    let body = without_last_dot(text);
    let labels = parts_of(body).map_values(|part: Seq<char>| ascii_octets(part));
    if ascii_text(body) && plain_labels(labels) {
        Some(NameView { labels, fqdn: body.len() < text.len() })
    } else {
        None
    }
}

/// What `hickory_proto::rr::Name::from_ascii` reads out of a text.
pub uninterp spec fn ascii_name(text: Seq<char>) -> Option<NameView>;

/// The name that is read from a text, if it is one.
pub open spec fn name_of(text: Seq<char>) -> Option<NameView> {
    if plain_name(text) is Some {
        plain_name(text)
    } else {
        ascii_name(text)
    }
}

/// What the `Display` of `hickory_proto::rr::Name` writes for a name.
pub uninterp spec fn name_text(name: NameView) -> Seq<char>;

/// The name that labels and a mark for full qualification make.
pub open spec fn name_read(parts: Option<(Vec<Vec<u8>>, bool)>) -> Option<NameView> {
    match parts {
        Some(p) => Some(NameView { labels: contents(p.0@), fqdn: p.1 }),
        None => None,
    }
}

/// Calls `hickory_proto::rr::Name::from_ascii`. The result depends on the text alone; the labels
/// of a name that was read are valid; and a text of plain labels with dots between them is read
/// as those labels, fully qualified where it ends in a dot. How escapes and other characters are
/// read is not said.
#[verifier::external_body]
fn read_ascii(text: &str) -> (r: Option<(Vec<Vec<u8>>, bool)>)
    ensures
        plain_name(text@) is Some ==> name_read(r) == plain_name(text@),
        plain_name(text@) is None ==> name_read(r) == ascii_name(text@),
        r is Some ==> valid_labels(name_read(r)->0.labels),
{
    let name = rr::Name::from_ascii(text).ok()?;
    Some((name.iter().map(|label| label.to_vec()).collect(), name.is_fqdn()))
}

/// `hickory_proto::rr::Name`, a domain name.
#[verifier::external_type_specification]
#[verifier::external_body]
pub struct ExName(hickory_proto::rr::Name);

/// What a `hickory_proto::rr::Name` holds.
pub uninterp spec fn hickory_name_view(name: rr::Name) -> NameView;

/// Calls `hickory_proto::rr::Name::from_labels`, which holds the labels, and marks whether the
/// name is fully qualified. Valid labels, as every `DomainName` has, are never refused.
#[verifier::external_body]
pub(crate) fn hickory_name(name: &DomainName) -> (r: rr::Name)
    ensures
        hickory_name_view(r) == name@,
{
    let labels = name.labels.iter().map(|label| label.as_slice());
    let mut n = rr::Name::from_labels(labels).unwrap_or_default();
    n.set_fqdn(name.fqdn);
    n
}

/// A name as text. Plain labels stand as they are, with dots between them and a dot at the end of
/// a fully qualified name.
pub open spec fn shown(name: NameView) -> Seq<char> {
    if !plain_labels(name.labels) {
        name_text(name)
    } else if name.fqdn {
        dotted(name.labels).push('.')
    } else {
        dotted(name.labels)
    }
}

/// Calls the `Display` of `hickory_proto::rr::Name`. The text depends on the labels and on
/// whether the name is fully qualified; plain labels stand as they are, with dots between them
/// and a dot at the end of a fully qualified name. How other labels are written is not said.
#[verifier::external_body]
fn write_name(name: &rr::Name) -> (r: String)
    ensures
        plain_labels(hickory_name_view(*name).labels) ==> r@ == shown(hickory_name_view(*name)),
        !plain_labels(hickory_name_view(*name).labels) ==> r@ == name_text(
            hickory_name_view(*name),
        ),
{
    name.to_string()
}

impl DomainName {
    /// Reads a name from ASCII text.
    pub fn from_ascii(text: &str) -> (r: Option<DomainName>)
        ensures
            match r {
                Some(n) => name_of(text@) == Some(n@),
                None => name_of(text@) is None,
            },
    {
        match read_ascii(text) {
            Some(read) => DomainName::from_labels(read.0, read.1),
            None => None,
        }
    }

    /// The name as text.
    pub fn text(&self) -> (r: String)
        ensures
            r@ == shown(self@),
    {
        write_name(&hickory_name(self))
    }
}

/// `a` comes before `b` in the canonical order of names: compared label by label from the right,
/// in small letters, a name stands before the names below it.
pub open spec fn canonical_before(a: Seq<Seq<u8>>, b: Seq<Seq<u8>>) -> bool
    decreases b.len(),
{
    if b.len() == 0 {
        false
    } else if a.len() == 0 {
        true
    } else {
        let x = lower_octets(a.last());
        let y = lower_octets(b.last());
        if x == y {
            canonical_before(a.drop_last(), b.drop_last())
        } else {
            octets_le(x, y)
        }
    }
}

/// Law: no name stands between a name and its `\000.<name>` in the canonical order.
pub proof fn law_black_lies_next_is_successor(name: NameView, other: Seq<Seq<u8>>)
    requires
        valid_labels(name.labels),
        labels_len(name.labels) + 3 <= MAX_NAME_LEN,
        valid_labels(other),
    ensures
        canonical_before(name.labels, black_lies_next(name).labels),
        !(canonical_before(name.labels, other) && canonical_before(
            other,
            black_lies_next(name).labels,
        )),
{
    lemma_successor(name.labels, other);
}

proof fn lemma_successor(labels: Seq<Seq<u8>>, other: Seq<Seq<u8>>)
    requires
        forall|i: int| 0 <= i < other.len() ==> (#[trigger] other[i]).len() > 0,
    ensures
        canonical_before(labels, seq![seq![0u8]] + labels),
        !(canonical_before(labels, other) && canonical_before(other, seq![seq![0u8]] + labels)),
    decreases labels.len(),
{
    let zero = seq![0u8];
    let next = seq![zero] + labels;
    if labels.len() == 0 {
        assert(next.last() == zero);
        if other.len() > 0 {
            let o = lower_octets(other.last());
            let z = lower_octets(zero);
            assert(z =~= zero);
            assert(other[other.len() - 1].len() > 0);
            if o != z && octets_le(o, z) {
                reveal_with_fuel(octets_le, 2);
                assert(o[0] == 0);
                assert(octets_le(o.drop_first(), z.drop_first()));
                assert(o.drop_first().len() == 0);
                assert(o =~= z);
            }
            assert(next.drop_last().len() == 0);
            assert(!canonical_before(other.drop_last(), next.drop_last()));
            assert(!canonical_before(other, next));
        } else {
            assert(!canonical_before(labels, other));
        }
    } else {
        assert(next.last() == labels.last());
        assert(next.drop_last() =~= seq![zero] + labels.drop_last());
        let rest = if other.len() > 0 {
            other.drop_last()
        } else {
            other
        };
        assert forall|i: int| 0 <= i < rest.len() implies (#[trigger] rest[i]).len() > 0 by {
            assert(rest[i] == other[i]);
        }
        lemma_successor(labels.drop_last(), rest);
        if other.len() > 0 {
            let x = lower_octets(labels.last());
            let y = lower_octets(other.last());
            if x != y && octets_le(x, y) && octets_le(y, x) {
                lemma_octets_le_antisymmetric(x, y);
            }
        } else {
            assert(!canonical_before(labels, other));
        }
    }
}

/// Law: two names with the same wire form have the same labels.
pub proof fn law_wire_form_is_unambiguous(a: Seq<Seq<u8>>, b: Seq<Seq<u8>>)
    requires
        valid_labels(a),
        valid_labels(b),
        name_wire(a) == name_wire(b),
    ensures
        a == b,
    decreases a.len(),
{
    let wa = name_wire(a);
    let wb = name_wire(b);
    if a.len() > 0 {
        assert(wa[0] == a[0].len() as u8);
    }
    if b.len() > 0 {
        assert(wb[0] == b[0].len() as u8);
    }
    if a.len() > 0 && b.len() > 0 {
        let n = a[0].len() as int;
        assert(wa.subrange(1, 1 + n) =~= a[0]);
        assert(wb.subrange(1, 1 + n) =~= b[0]);
        assert(wa.skip(1 + n) =~= name_wire(a.drop_first()));
        assert(wb.skip(1 + n) =~= name_wire(b.drop_first()));
        assert forall|i: int| 0 <= i < a.drop_first().len() implies 1 <= (
        #[trigger] a.drop_first()[i]).len() <= MAX_LABEL_LEN by {
            assert(a.drop_first()[i] == a[i + 1]);
        }
        assert forall|i: int| 0 <= i < b.drop_first().len() implies 1 <= (
        #[trigger] b.drop_first()[i]).len() <= MAX_LABEL_LEN by {
            assert(b.drop_first()[i] == b[i + 1]);
        }
        law_wire_form_is_unambiguous(a.drop_first(), b.drop_first());
        assert(a =~= seq![a[0]] + a.drop_first());
        assert(b =~= seq![b[0]] + b.drop_first());
    } else {
        assert(a =~= b);
    }
}

/// Law: the wire form of a name holds at most 255 octets.
pub proof fn law_wire_form_is_short(labels: Seq<Seq<u8>>)
    requires
        valid_labels(labels),
    ensures
        name_wire(labels).len() == labels_len(labels) + 1,
        name_wire(labels).len() <= MAX_NAME_LEN,
{
    lemma_wire_len(labels);
}

proof fn lemma_wire_len(labels: Seq<Seq<u8>>)
    ensures
        labels_wire(labels).len() == labels_len(labels),
    decreases labels.len(),
{
    if labels.len() > 0 {
        lemma_wire_len(labels.drop_first());
    }
}

/// Plain labels with dots between them are ASCII.
pub proof fn lemma_dotted_ascii(labels: Seq<Seq<u8>>)
    requires
        forall|i: int| 0 <= i < labels.len() ==> plain_label(#[trigger] labels[i]),
    ensures
        ascii_text(dotted(labels)),
    decreases labels.len(),
{
    if labels.len() > 0 {
        let rest = labels.drop_first();
        assert forall|i: int| 0 <= i < rest.len() implies plain_label(#[trigger] rest[i]) by {
            assert(rest[i] == labels[i + 1]);
        }
        lemma_dotted_ascii(rest);
        let label = labels[0];
        assert(plain_label(label));
        let text = label_text(label);
        assert forall|i: int| 0 <= i < text.len() implies '\0' <= #[trigger] text[i]
            <= '\u{7f}' by {
            assert(text[i] == label[i] as char);
        }
        let all = dotted(labels);
        assert forall|i: int| 0 <= i < all.len() implies '\0' <= #[trigger] all[i] <= '\u{7f}' by {
            if i < text.len() {
                assert(all[i] == text[i]);
            } else if i > text.len() {
                assert(all[i] == dotted(rest)[i - text.len() - 1]);
            }
        }
    }
}

proof fn lemma_label_text_injective(a: Seq<u8>, b: Seq<u8>)
    requires
        label_text(a) == label_text(b),
    ensures
        a == b,
{
    assert(a.len() == label_text(a).len());
    assert(b.len() == label_text(b).len());
    assert forall|i: int| 0 <= i < a.len() implies a[i] == b[i] by {
        assert(label_text(a)[i] == a[i] as char);
        assert(label_text(b)[i] == b[i] as char);
        assert((a[i] as char) as u32 == a[i] as u32);
        assert((b[i] as char) as u32 == b[i] as u32);
    }
    assert(a =~= b);
}

/// The first label of plain labels with dots between them ends at the first dot.
proof fn lemma_first_dot(labels: Seq<Seq<u8>>)
    requires
        labels.len() > 0,
        plain_label(labels[0]),
    ensures
        first_place(dotted(labels), '.') == labels[0].len(),
        dotted(labels).take(labels[0].len() as int) == label_text(labels[0]),
        labels.len() > 1 ==> dotted(labels).len() > labels[0].len() && dotted(labels).skip(
            labels[0].len() as int + 1,
        ) == dotted(labels.drop_first()),
        labels.len() == 1 ==> dotted(labels).len() == labels[0].len(),
{
    let label = labels[0];
    let text = label_text(label);
    let all = dotted(labels);
    let n = label.len() as int;
    assert forall|i: int| 0 <= i < n implies all[i] != '.' by {
        assert(all[i] == text[i]);
        assert(text[i] == label[i] as char);
        assert((label[i] as char) as u32 == label[i] as u32);
        assert(('.') as u32 == 46);
    }
    assert(all.take(n) =~= text);
    if labels.len() > 1 {
        assert(all[n] == '.');
        assert(all.skip(n + 1) =~= dotted(labels.drop_first()));
    }
    lemma_first_place_is(all, '.', n);
}

/// Plain labels with dots between them tell the labels.
pub proof fn lemma_dotted_injective(a: Seq<Seq<u8>>, b: Seq<Seq<u8>>)
    requires
        a.len() > 0,
        b.len() > 0,
        forall|i: int| 0 <= i < a.len() ==> plain_label(#[trigger] a[i]),
        forall|i: int| 0 <= i < b.len() ==> plain_label(#[trigger] b[i]),
        dotted(a) == dotted(b),
    ensures
        a == b,
    decreases a.len(),
{
    assert(plain_label(a[0]) && plain_label(b[0]));
    lemma_first_dot(a);
    lemma_first_dot(b);
    lemma_label_text_injective(a[0], b[0]);
    if a.len() > 1 {
        let ra = a.drop_first();
        let rb = b.drop_first();
        assert forall|i: int| 0 <= i < ra.len() implies plain_label(#[trigger] ra[i]) by {
            assert(ra[i] == a[i + 1]);
        }
        assert forall|i: int| 0 <= i < rb.len() implies plain_label(#[trigger] rb[i]) by {
            assert(rb[i] == b[i + 1]);
        }
        lemma_dotted_injective(ra, rb);
        assert(a =~= seq![a[0]] + ra);
        assert(b =~= seq![b[0]] + rb);
    } else {
        assert(a =~= seq![a[0]]);
        assert(b =~= seq![b[0]]);
    }
}

/// The parts of plain labels with dots between them are the labels.
proof fn lemma_parts_of_dotted(labels: Seq<Seq<u8>>)
    requires
        labels.len() > 0,
        forall|i: int| 0 <= i < labels.len() ==> plain_label(#[trigger] labels[i]),
    ensures
        parts_of(dotted(labels)).map_values(|part: Seq<char>| ascii_octets(part)) == labels,
    decreases labels.len(),
{
    let octets = |part: Seq<char>| ascii_octets(part);
    let label = labels[0];
    assert(plain_label(label));
    lemma_first_dot(labels);
    assert forall|i: int| 0 <= i < label.len() implies #[trigger] ascii_octets(
        label_text(label),
    )[i] == label[i] by {
        assert(label_text(label)[i] == label[i] as char);
        assert((label[i] as char) as u8 == label[i]);
    }
    assert(ascii_octets(label_text(label)) =~= label);
    let text = dotted(labels);
    if labels.len() > 1 {
        let rest = labels.drop_first();
        assert forall|i: int| 0 <= i < rest.len() implies plain_label(#[trigger] rest[i]) by {
            assert(rest[i] == labels[i + 1]);
        }
        lemma_parts_of_dotted(rest);
        assert(parts_of(text).map_values(octets) =~= seq![label] + parts_of(
            dotted(rest),
        ).map_values(octets));
        assert(labels =~= seq![label] + rest);
    } else {
        assert(text.take(label.len() as int) =~= text);
        assert(parts_of(text).map_values(octets) =~= seq![label]);
        assert(labels =~= seq![label]);
    }
}

/// Plain labels with dots between them do not end in a dot.
proof fn lemma_last_of_dotted(labels: Seq<Seq<u8>>)
    requires
        labels.len() > 0,
        forall|i: int| 0 <= i < labels.len() ==> plain_label(#[trigger] labels[i]),
    ensures
        dotted(labels).len() > 0,
        dotted(labels).last() != '.',
    decreases labels.len(),
{
    let label = labels[0];
    assert(plain_label(label));
    if labels.len() > 1 {
        let rest = labels.drop_first();
        assert forall|i: int| 0 <= i < rest.len() implies plain_label(#[trigger] rest[i]) by {
            assert(rest[i] == labels[i + 1]);
        }
        lemma_last_of_dotted(rest);
        assert(dotted(labels).last() == dotted(rest).last());
    } else {
        let b = label.last();
        assert(label[label.len() - 1] == b);
        assert(dotted(labels).last() == b as char);
        assert((b as char) as u32 == b as u32);
        assert(('.') as u32 == 46);
    }
}

/// Law: a name with plain labels is read again from the text that it is shown as.
pub proof fn law_shown_name_is_read_again(name: NameView)
    requires
        plain_labels(name.labels),
    ensures
        name_of(shown(name)) == Some(name),
{
    let body = dotted(name.labels);
    lemma_parts_of_dotted(name.labels);
    lemma_last_of_dotted(name.labels);
    lemma_dotted_ascii(name.labels);
    assert(body.push('.').drop_last() =~= body);
    assert(without_last_dot(shown(name)) =~= body);
}

/// The parts of a text, as labels with dots between them, make up the text.
proof fn lemma_dotted_of_parts(text: Seq<char>)
    requires
        ascii_text(text),
    ensures
        parts_of(text).len() > 0,
        dotted(parts_of(text).map_values(|part: Seq<char>| ascii_octets(part))) == text,
    decreases text.len(),
{
    let octets = |part: Seq<char>| ascii_octets(part);
    let end = first_place(text, '.');
    lemma_first_place(text, '.');
    let first = text.take(end);
    assert forall|i: int| 0 <= i < end implies #[trigger] label_text(ascii_octets(first))[i]
        == first[i] by {
        let c = text[i];
        assert(c <= '\u{7f}');
        assert((c as u8) as char == c);
    }
    assert(label_text(ascii_octets(first)) =~= first);
    let labels = parts_of(text).map_values(octets);
    if end >= text.len() {
        assert(first =~= text);
        assert(labels =~= seq![ascii_octets(text)]);
    } else {
        let rest = text.skip(end + 1);
        assert forall|i: int| 0 <= i < rest.len() implies '\0' <= #[trigger] rest[i]
            <= '\u{7f}' by {
            assert(rest[i] == text[end + 1 + i]);
        }
        lemma_dotted_of_parts(rest);
        assert(labels.drop_first() =~= parts_of(rest).map_values(octets));
        assert(labels[0] == ascii_octets(first));
        assert(text =~= first.push('.') + rest);
    }
}

/// Law: a name that was read from a text of plain labels is shown as that text.
pub proof fn law_plain_name_is_shown_as_read(text: Seq<char>)
    requires
        plain_name(text) is Some,
    ensures
        shown(plain_name(text)->0) == text,
{
    let body = without_last_dot(text);
    lemma_dotted_of_parts(body);
    if body.len() < text.len() {
        assert(text =~= body.push('.'));
    }
}

} // verus!
