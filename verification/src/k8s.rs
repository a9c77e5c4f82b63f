//! Resource metrics of the Kubernetes nodes: the grammar of the quantities
//! they are reported in, and their aggregation per node.
use vstd::prelude::*;

verus! {

/// Errors met while collecting the metrics.
#[derive(Debug, PartialEq, Eq)]
pub enum Error {
    /// The Kubernetes API failed; its message.
    Kube(String),
    /// A key is missing from what the API returned.
    MissingKey(&'static str),
    /// A quantity could not be parsed; the quantity as received.
    QuantityParsing(String),
}

/// How to complete the unit of a quantity that comes without a full unit.
pub enum MissingUnitType<'a> {
    /// Append this to the unit prefix received, e.g. `B` for bytes after `Ki`.
    Suffix(&'a str),
    /// Replace the unit received with this one, e.g. `ppb` for `n`.
    Complete(&'a str),
}

/// Whether the regular expression `pattern` matches the text made of `c` alone.
pub uninterp spec fn regex_matches_char(pattern: Seq<char>, c: char) -> bool;

/// Tests `c` against `pattern` with the regex engine: `Regex::new` of
/// `lazy_regex` (the `regex` crate), then `is_match` on the UTF-8 text of `c`.
/// The result is named, as a function of the pattern and the character only;
/// what the Unicode classes hold is left to the engine.
#[verifier::external_body]
fn char_matches(pattern: &str, c: char) -> (res: bool)
    ensures
        res == regex_matches_char(pattern@, c),
{
    let mut buf = [0u8; 4];
    match lazy_regex::Regex::new(pattern) {
        Ok(re) => re.is_match(c.encode_utf8(&mut buf)),
        Err(_) => false,
    }
}

/// A digit in the sense of the regex class `\d`: a Unicode decimal digit.
pub open spec fn is_digit_char(c: char) -> bool {
    regex_matches_char("^\\d$"@, c)
}

/// A character of a unit, in the sense of the regex class `\w`: a Unicode
/// word character (letters, marks, decimal digits, connector punctuation).
pub open spec fn is_word_char(c: char) -> bool {
    regex_matches_char("^\\w$"@, c)
}

/// The number of digits that start `s`.
pub open spec fn digit_run(s: Seq<char>) -> nat
    decreases s.len(),
{
    if s.len() > 0 && is_digit_char(s[0]) {
        1 + digit_run(s.drop_first())
    } else {
        0
    }
}

/// The unit of a quantity whose received unit (prefix) is `prefix`.
pub open spec fn unit_of(missing: MissingUnitType, prefix: Seq<char>) -> Seq<char> {
    match missing {
        MissingUnitType::Suffix(suffix) => prefix + suffix@,
        MissingUnitType::Complete(complete) => complete@,
    }
}

/// A quantity is a number (one or more digits) followed by a unit prefix
/// (word characters), as the pattern `^(\d+)(\w*)$` reads it: the number is
/// the longest run of digits that starts `s`, since a shorter one leaves
/// more to match as the unit. It reads as the number, a space, and the
/// completed unit; `None` when `s` is not such a quantity.
pub open spec fn quantity_text(s: Seq<char>, missing: MissingUnitType) -> Option<Seq<char>> {
    let d = digit_run(s);
    if d >= 1 && (forall|i: int| d <= i < s.len() ==> is_word_char(#[trigger] s[i])) {
        Some(s.take(d as int) + seq![' '] + unit_of(missing, s.skip(d as int)))
    } else {
        None
    }
}

proof fn lemma_digit_run(s: Seq<char>, i: int)
    requires
        0 <= i <= s.len(),
        forall|j: int| 0 <= j < i ==> is_digit_char(#[trigger] s[j]),
        i == s.len() || !is_digit_char(s[i]),
    ensures
        digit_run(s) == i,
    decreases i,
{
    if i > 0 {
        let t = s.drop_first();
        assert forall|j: int| 0 <= j < i - 1 implies is_digit_char(#[trigger] t[j]) by {
            assert(t[j] == s[j + 1]);
        }
        if i - 1 < t.len() {
            assert(t[i - 1] == s[i]);
        }
        lemma_digit_run(t, i - 1);
    }
}

/// A number (digits) followed by a unit prefix (word characters that do not
/// start with a digit) reads as the number, a space, and the unit completed
/// as `missing` says.
pub proof fn lemma_quantity_reads_number_and_unit(
    number: Seq<char>,
    prefix: Seq<char>,
    missing: MissingUnitType,
)
    requires
        number.len() >= 1,
        forall|i: int| 0 <= i < number.len() ==> is_digit_char(#[trigger] number[i]),
        forall|i: int| 0 <= i < prefix.len() ==> is_word_char(#[trigger] prefix[i]),
        prefix.len() == 0 || !is_digit_char(prefix[0]),
    ensures
        quantity_text(number + prefix, missing) == Some(
            number + seq![' '] + unit_of(missing, prefix),
        ),
{
    let s = number + prefix;
    let d = number.len() as int;
    assert forall|j: int| 0 <= j < d implies is_digit_char(#[trigger] s[j]) by {
        assert(s[j] == number[j]);
    }
    if d < s.len() {
        assert(s[d] == prefix[0]);
    }
    lemma_digit_run(s, d);
    assert forall|i: int| d <= i < s.len() implies is_word_char(#[trigger] s[i]) by {
        assert(s[i] == prefix[i - d]);
    }
    assert(s.take(d) =~= number);
    assert(s.skip(d) =~= prefix);
}

/// With a unit to complete, the unit prefix received is discarded: two
/// quantities with the same number read alike, as the number and that unit.
pub proof fn lemma_complete_discards_unit(
    number: Seq<char>,
    prefix: Seq<char>,
    other_prefix: Seq<char>,
    complete: &str,
)
    requires
        number.len() >= 1,
        forall|i: int| 0 <= i < number.len() ==> is_digit_char(#[trigger] number[i]),
        forall|i: int| 0 <= i < prefix.len() ==> is_word_char(#[trigger] prefix[i]),
        forall|i: int| 0 <= i < other_prefix.len() ==> is_word_char(#[trigger] other_prefix[i]),
        prefix.len() == 0 || !is_digit_char(prefix[0]),
        other_prefix.len() == 0 || !is_digit_char(other_prefix[0]),
    ensures
        quantity_text(number + prefix, MissingUnitType::Complete(complete)) == quantity_text(
            number + other_prefix,
            MissingUnitType::Complete(complete),
        ),
        quantity_text(number + prefix, MissingUnitType::Complete(complete)) == Some(
            number + seq![' '] + complete@,
        ),
{
    lemma_quantity_reads_number_and_unit(number, prefix, MissingUnitType::Complete(complete));
    lemma_quantity_reads_number_and_unit(
        number,
        other_prefix,
        MissingUnitType::Complete(complete),
    );
}

fn is_digit(c: char) -> (res: bool)
    ensures
        res == is_digit_char(c),
{
    char_matches("^\\d$", c)
}

fn is_word(c: char) -> (res: bool)
    ensures
        res == is_word_char(c),
{
    char_matches("^\\w$", c)
}

/// Rewrites a quantity received from Kubernetes (e.g. `1024n`, `2Ki`) in
/// the form `<number> <unit>` that the unit library reads, completing its
/// unit as `missing_unit` says.
pub fn parse_quantity(quantity: &str, missing_unit: &MissingUnitType) -> (res: Result<
    String,
    Error,
>)
    ensures
        match quantity_text(quantity@, *missing_unit) {
            Some(t) => res matches Ok(r) && r@ == t,
            None => res matches Err(Error::QuantityParsing(q)) && q@ == quantity@,
        },
{
    let n = quantity.unicode_len();
    let mut d: usize = 0;
    while d < n && is_digit(quantity.get_char(d))
        invariant
            n == quantity@.len(),
            d <= n,
            forall|j: int| 0 <= j < d ==> is_digit_char(#[trigger] quantity@[j]),
        decreases n - d,
    {
        d = d + 1;
    }
    proof {
        lemma_digit_run(quantity@, d as int);
    }
    if d == 0 {
        return Err(Error::QuantityParsing(String::from_str(quantity)));
    }
    let mut i = d;
    while i < n
        invariant
            n == quantity@.len(),
            1 <= d <= i <= n,
            digit_run(quantity@) == d,
            forall|j: int| d <= j < i ==> is_word_char(#[trigger] quantity@[j]),
        decreases n - i,
    {
        if !is_word(quantity.get_char(i)) {
            assert(!is_word_char(quantity@[i as int]));
            return Err(Error::QuantityParsing(String::from_str(quantity)));
        }
        i = i + 1;
    }
    let measure = quantity.substring_char(0, d);
    let prefix = quantity.substring_char(d, n);
    let mut text = String::from_str(measure);
    let space = " ";
    proof {
        reveal_strlit(" ");
    }
    text.append(space);
    match missing_unit {
        MissingUnitType::Suffix(suffix) => {
            text.append(prefix);
            text.append(suffix);
        },
        MissingUnitType::Complete(complete) => {
            text.append(complete);
        },
    }
    proof {
        assert(quantity@.take(d as int) =~= quantity@.subrange(0, d as int));
        assert(quantity@.skip(d as int) =~= quantity@.subrange(d as int, n as int));
        assert(quantity@.take(d as int) + seq![' '] + unit_of(*missing_unit, quantity@.skip(d as int))
            =~= text@);
    }
    Ok(text)
}

/// A quantity as received, with the value the unit library read from its
/// text ([`parse_quantity`]); `None` when the text could not be read.
pub struct ReadQuantity<Q> {
    pub received: String,
    pub value: Option<Q>,
}

/// The usage that the metrics server reports for a node.
pub struct NodeMetricsInput<C, M> {
    pub name: Option<String>,
    pub cpu: ReadQuantity<C>,
    pub memory: ReadQuantity<M>,
}

/// The allocatable resources listed in a node's status.
pub struct AllocatableInput<C, M> {
    pub cpu: Option<ReadQuantity<C>>,
    pub memory: Option<ReadQuantity<M>>,
}

/// The status of a node.
pub struct NodeStatusInput<C, M> {
    pub allocatable: Option<AllocatableInput<C, M>>,
}

/// A node as the Kubernetes API lists it.
pub struct NodeInput<C, M> {
    pub name: Option<String>,
    pub status: Option<NodeStatusInput<C, M>>,
}

/// The resources a node uses.
#[derive(Clone, Copy, Debug, PartialEq, Eq)]
pub struct Usage<C, M> {
    pub cpu: C,
    pub memory: M,
}

/// The resources a node can allocate.
#[derive(Clone, Copy, Debug, PartialEq, Eq)]
pub struct Allocatable<C, M> {
    pub cpu: C,
    pub memory: M,
}

/// The metrics of a node.
#[derive(Clone, Copy, Debug, PartialEq, Eq)]
pub struct Metrics<C, M> {
    pub usage: Option<Usage<C, M>>,
    pub allocatable: Option<Allocatable<C, M>>,
}

/// The value of a quantity, or the error for its received text.
pub open spec fn read_value<Q>(q: ReadQuantity<Q>) -> Result<Q, Error> {
    match q.value {
        Some(v) => Ok(v),
        None => Err(Error::QuantityParsing(q.received)),
    }
}

/// The metrics gathered so far, after the usage of one more node: it is
/// recorded under the node's name, replacing any earlier record.
pub open spec fn usage_step<C, M>(
    acc: Result<Map<Seq<char>, Metrics<C, M>>, Error>,
    item: NodeMetricsInput<C, M>,
) -> Result<Map<Seq<char>, Metrics<C, M>>, Error> {
    match acc {
        Err(e) => Err(e),
        Ok(m) => match item.name {
            None => Err(Error::MissingKey("metadata:name")),
            Some(name) => match read_value(item.cpu) {
                Err(e) => Err(e),
                Ok(cpu) => match read_value(item.memory) {
                    Err(e) => Err(e),
                    Ok(memory) => Ok(
                        m.insert(
                            name@,
                            Metrics { usage: Some(Usage { cpu, memory }), allocatable: None },
                        ),
                    ),
                },
            },
        },
    }
}

/// The metrics recorded from the usages `items`, taken in order; the
/// first error met, if any.
pub open spec fn usages_of<C, M>(items: Seq<NodeMetricsInput<C, M>>) -> Result<
    Map<Seq<char>, Metrics<C, M>>,
    Error,
>
    decreases items.len(),
{
    if items.len() == 0 {
        Ok(Map::empty())
    } else {
        usage_step(usages_of(items.drop_last()), items.last())
    }
}

/// The metrics gathered so far, after the allocatable resources of one more
/// node, which must already have a usage record.
pub open spec fn allocatable_step<C, M>(
    acc: Result<Map<Seq<char>, Metrics<C, M>>, Error>,
    node: NodeInput<C, M>,
) -> Result<Map<Seq<char>, Metrics<C, M>>, Error> {
    match acc {
        Err(e) => Err(e),
        Ok(m) => match node.status {
            None => Err(Error::MissingKey("status")),
            Some(status) => match status.allocatable {
                None => Err(Error::MissingKey("allocatable")),
                Some(alloc) => match node.name {
                    None => Err(Error::MissingKey("metadata:name")),
                    Some(name) => match alloc.cpu {
                        None => Err(Error::MissingKey("cpu")),
                        Some(cpu_q) => match alloc.memory {
                            None => Err(Error::MissingKey("memory")),
                            Some(memory_q) => match read_value(cpu_q) {
                                Err(e) => Err(e),
                                Ok(cpu) => match read_value(memory_q) {
                                    Err(e) => Err(e),
                                    Ok(memory) => if m.dom().contains(name@) {
                                        Ok(
                                            m.insert(
                                                name@,
                                                Metrics {
                                                    usage: m[name@].usage,
                                                    allocatable: Some(Allocatable { cpu, memory }),
                                                },
                                            ),
                                        )
                                    } else {
                                        Err(Error::MissingKey("metadata:name"))
                                    },
                                },
                            },
                        },
                    },
                },
            },
        },
    }
}

/// The metrics `base`, completed with the allocatable resources of `nodes`,
/// taken in order; the first error met, if any.
pub open spec fn allocatables_of<C, M>(
    base: Result<Map<Seq<char>, Metrics<C, M>>, Error>,
    nodes: Seq<NodeInput<C, M>>,
) -> Result<Map<Seq<char>, Metrics<C, M>>, Error>
    decreases nodes.len(),
{
    if nodes.len() == 0 {
        base
    } else {
        allocatable_step(allocatables_of(base, nodes.drop_last()), nodes.last())
    }
}

/// The name a node is listed under (empty when it has none).
pub open spec fn node_name<C, M>(node: NodeInput<C, M>) -> Seq<char> {
    match node.name {
        Some(name) => name@,
        None => Seq::empty(),
    }
}

/// The allocatable resources a node lists, when it lists both and both
/// could be read.
pub open spec fn listed_allocatable<C, M>(node: NodeInput<C, M>) -> Option<Allocatable<C, M>> {
    match node.status {
        Some(status) => match status.allocatable {
            Some(alloc) => match (alloc.cpu, alloc.memory) {
                (Some(cpu), Some(memory)) => match (cpu.value, memory.value) {
                    (Some(c), Some(m)) => Some(Allocatable { cpu: c, memory: m }),
                    _ => None,
                },
                _ => None,
            },
            None => None,
        },
        None => None,
    }
}

/// The name a node reports its usage under (empty when it has none).
pub open spec fn metric_name<C, M>(item: NodeMetricsInput<C, M>) -> Seq<char> {
    match item.name {
        Some(name) => name@,
        None => Seq::empty(),
    }
}

/// Every usage reported is recorded, whatever its place in the list: when
/// the usages are gathered without error, the node's name maps to the usage
/// it reported, with no allocatable resources yet, unless a later report of
/// the same name replaces it.
pub proof fn lemma_reported_usage_recorded<C, M>(items: Seq<NodeMetricsInput<C, M>>, i: int)
    requires
        0 <= i < items.len(),
        usages_of(items) is Ok,
        forall|j: int| i < j < items.len() ==> metric_name(#[trigger] items[j]) != metric_name(items[i]),
    ensures
        items[i].name is Some,
        items[i].cpu.value is Some,
        items[i].memory.value is Some,
        usages_of(items)->Ok_0.dom().contains(metric_name(items[i])),
        usages_of(items)->Ok_0[metric_name(items[i])] == (Metrics {
            usage: Some(Usage { cpu: items[i].cpu.value->0, memory: items[i].memory.value->0 }),
            allocatable: None::<Allocatable<C, M>>,
        }),
    decreases items.len(),
{
    let rest = items.drop_last();
    assert(usages_of(rest) is Ok);
    if i == items.len() - 1 {
        assert(items.last() == items[i]);
    } else {
        assert(rest[i] == items[i]);
        assert forall|j: int| i < j < rest.len() implies metric_name(#[trigger] rest[j])
            != metric_name(rest[i]) by {
            assert(rest[j] == items[j]);
        }
        lemma_reported_usage_recorded(rest, i);
        assert(metric_name(items.last()) != metric_name(items[i]));
    }
}

/// Completing metrics with allocatable resources succeeds only on metrics
/// that were gathered, names the same nodes, and keeps their usages.
pub proof fn lemma_allocatables_keep_usages<C, M>(
    base: Result<Map<Seq<char>, Metrics<C, M>>, Error>,
    nodes: Seq<NodeInput<C, M>>,
)
    requires
        allocatables_of(base, nodes) is Ok,
    ensures
        base is Ok,
        allocatables_of(base, nodes)->Ok_0.dom() == base->Ok_0.dom(),
        forall|k: Seq<char>|
            #[trigger] base->Ok_0.dom().contains(k) ==> allocatables_of(base, nodes)->Ok_0[k].usage
                == base->Ok_0[k].usage,
    decreases nodes.len(),
{
    if nodes.len() > 0 {
        let acc = allocatables_of(base, nodes.drop_last());
        assert(acc is Ok);
        lemma_allocatables_keep_usages(base, nodes.drop_last());
        assert(allocatables_of(base, nodes)->Ok_0.dom() =~= acc->Ok_0.dom());
    }
}

/// Every node listed has its allocatable resources recorded, whatever its
/// place in the list: when the metrics are complete, the node's name maps
/// to its usage as gathered and to the resources it lists, unless a later
/// node of the same name replaces them.
pub proof fn lemma_listed_node_gets_its_allocatable<C, M>(
    base: Result<Map<Seq<char>, Metrics<C, M>>, Error>,
    nodes: Seq<NodeInput<C, M>>,
    i: int,
)
    requires
        0 <= i < nodes.len(),
        allocatables_of(base, nodes) is Ok,
        forall|j: int| i < j < nodes.len() ==> node_name(#[trigger] nodes[j]) != node_name(nodes[i]),
    ensures
        nodes[i].name is Some,
        listed_allocatable(nodes[i]) is Some,
        base is Ok,
        base->Ok_0.dom().contains(node_name(nodes[i])),
        allocatables_of(base, nodes)->Ok_0.dom().contains(node_name(nodes[i])),
        allocatables_of(base, nodes)->Ok_0[node_name(nodes[i])] == (Metrics {
            usage: base->Ok_0[node_name(nodes[i])].usage,
            allocatable: listed_allocatable(nodes[i]),
        }),
    decreases nodes.len(),
{
    let rest = nodes.drop_last();
    let acc = allocatables_of(base, rest);
    assert(acc is Ok);
    lemma_allocatables_keep_usages(base, rest);
    if i == nodes.len() - 1 {
        assert(nodes.last() == nodes[i]);
    } else {
        assert(rest[i] == nodes[i]);
        assert forall|j: int| i < j < rest.len() implies node_name(#[trigger] rest[j]) != node_name(
            rest[i],
        ) by {
            assert(rest[j] == nodes[j]);
        }
        lemma_listed_node_gets_its_allocatable(base, rest, i);
        assert(node_name(nodes.last()) != node_name(nodes[i]));
    }
}

/// No two entries share a name.
pub open spec fn names_unique<T>(s: Seq<(String, T)>) -> bool {
    forall|i: int, j: int| 0 <= i < s.len() && 0 <= j < s.len() && i != j ==> #[trigger] s[i].0@
        != #[trigger] s[j].0@
}

/// The map from name to value that a list of named entries stands for.
pub open spec fn entries_map<T>(s: Seq<(String, T)>) -> Map<Seq<char>, T> {
    Map::new(
        |k: Seq<char>| exists|i: int| 0 <= i < s.len() && #[trigger] s[i].0@ == k,
        |k: Seq<char>| s[choose|i: int| 0 <= i < s.len() && #[trigger] s[i].0@ == k].1,
    )
}

proof fn lemma_entries_map_at<T>(s: Seq<(String, T)>, i: int)
    requires
        names_unique(s),
        0 <= i < s.len(),
    ensures
        entries_map(s).dom().contains(s[i].0@),
        entries_map(s)[s[i].0@] == s[i].1,
{
    let k = s[i].0@;
    assert(entries_map(s).dom().contains(k));
    let c = choose|c: int| 0 <= c < s.len() && #[trigger] s[c].0@ == k;
    assert(c == i);
}

proof fn lemma_entries_push<T>(s: Seq<(String, T)>, name: String, v: T)
    requires
        names_unique(s),
        forall|i: int| 0 <= i < s.len() ==> #[trigger] s[i].0@ != name@,
    ensures
        names_unique(s.push((name, v))),
        entries_map(s.push((name, v))) == entries_map(s).insert(name@, v),
{
    let t = s.push((name, v));
    assert(names_unique(t)) by {
        assert forall|i: int, j: int| 0 <= i < t.len() && 0 <= j < t.len() && i != j implies #[trigger] t[i].0@
            != #[trigger] t[j].0@ by {
            if i < s.len() && j < s.len() {
                assert(s[i].0@ != s[j].0@);
            } else if i < s.len() {
                assert(s[i].0@ != name@);
            } else {
                assert(s[j].0@ != name@);
            }
        }
    }
    assert forall|k: Seq<char>| #[trigger] entries_map(t).dom().contains(k) <==> entries_map(s).insert(
        name@,
        v,
    ).dom().contains(k) by {
        if entries_map(s).dom().contains(k) {
            let i = choose|i: int| 0 <= i < s.len() && #[trigger] s[i].0@ == k;
            assert(t[i].0@ == k);
        }
        if entries_map(t).dom().contains(k) && k != name@ {
            let i = choose|i: int| 0 <= i < t.len() && #[trigger] t[i].0@ == k;
            assert(i < s.len());
            assert(s[i].0@ == k);
        }
        if k == name@ {
            assert(t[s.len() as int].0@ == k);
        }
    }
    assert forall|k: Seq<char>| #[trigger] entries_map(t).dom().contains(k) implies entries_map(t)[k]
        == entries_map(s).insert(name@, v)[k] by {
        let i = choose|i: int| 0 <= i < t.len() && #[trigger] t[i].0@ == k;
        lemma_entries_map_at(t, i);
        if i < s.len() {
            assert(s[i] == t[i]);
            lemma_entries_map_at(s, i);
        }
    }
    assert(entries_map(t) =~= entries_map(s).insert(name@, v));
}

proof fn lemma_entries_update<T>(s: Seq<(String, T)>, j: int, v: T)
    requires
        names_unique(s),
        0 <= j < s.len(),
    ensures
        names_unique(s.update(j, (s[j].0, v))),
        entries_map(s.update(j, (s[j].0, v))) == entries_map(s).insert(s[j].0@, v),
{
    let t = s.update(j, (s[j].0, v));
    assert(names_unique(t)) by {
        assert forall|a: int, b: int| 0 <= a < t.len() && 0 <= b < t.len() && a != b implies #[trigger] t[a].0@
            != #[trigger] t[b].0@ by {
            assert(t[a].0 == s[a].0);
            assert(t[b].0 == s[b].0);
            assert(s[a].0@ != s[b].0@);
        }
    }
    assert forall|k: Seq<char>| #[trigger] entries_map(t).dom().contains(k) <==> entries_map(s).insert(
        s[j].0@,
        v,
    ).dom().contains(k) by {
        if entries_map(s).dom().contains(k) {
            let i = choose|i: int| 0 <= i < s.len() && #[trigger] s[i].0@ == k;
            assert(t[i].0@ == k);
        }
        if entries_map(t).dom().contains(k) {
            let i = choose|i: int| 0 <= i < t.len() && #[trigger] t[i].0@ == k;
            assert(s[i].0@ == k);
        }
        if k == s[j].0@ {
            assert(t[j].0@ == k);
        }
    }
    assert forall|k: Seq<char>| #[trigger] entries_map(t).dom().contains(k) implies entries_map(t)[k]
        == entries_map(s).insert(s[j].0@, v)[k] by {
        let i = choose|i: int| 0 <= i < t.len() && #[trigger] t[i].0@ == k;
        lemma_entries_map_at(t, i);
        if i != j {
            assert(s[i] == t[i]);
            lemma_entries_map_at(s, i);
        }
    }
    assert(entries_map(t) =~= entries_map(s).insert(s[j].0@, v));
}

/// Once the usages met an error, further usages keep it.
proof fn lemma_usages_error_stays<C, M>(items: Seq<NodeMetricsInput<C, M>>, i: int, k: int, e: Error)
    requires
        0 <= i <= k <= items.len(),
        usages_of(items.take(i)) == Err::<Map<Seq<char>, Metrics<C, M>>, Error>(e),
    ensures
        usages_of(items.take(k)) == Err::<Map<Seq<char>, Metrics<C, M>>, Error>(e),
    decreases k - i,
{
    if k > i {
        lemma_usages_error_stays(items, i, k - 1, e);
        assert(items.take(k).drop_last() =~= items.take(k - 1));
    }
}

/// Once the allocatable resources met an error, further nodes keep it.
proof fn lemma_allocatables_error_stays<C, M>(
    base: Result<Map<Seq<char>, Metrics<C, M>>, Error>,
    nodes: Seq<NodeInput<C, M>>,
    i: int,
    k: int,
    e: Error,
)
    requires
        0 <= i <= k <= nodes.len(),
        allocatables_of(base, nodes.take(i)) == Err::<Map<Seq<char>, Metrics<C, M>>, Error>(e),
    ensures
        allocatables_of(base, nodes.take(k)) == Err::<Map<Seq<char>, Metrics<C, M>>, Error>(e),
    decreases k - i,
{
    if k > i {
        lemma_allocatables_error_stays(base, nodes, i, k - 1, e);
        assert(nodes.take(k).drop_last() =~= nodes.take(k - 1));
    }
}

/// Base usage: an error anywhere in the usages is the result whatever the nodes.
proof fn lemma_allocatables_of_error<C, M>(nodes: Seq<NodeInput<C, M>>, e: Error)
    ensures
        allocatables_of(Err(e), nodes) == Err::<Map<Seq<char>, Metrics<C, M>>, Error>(e),
    decreases nodes.len(),
{
    if nodes.len() > 0 {
        lemma_allocatables_of_error(nodes.drop_last(), e);
    }
}

/// The index of the entry named `name`, if there is one.
fn find_entry<T>(entries: &Vec<(String, T)>, name: &String) -> (res: Option<usize>)
    ensures
        match res {
            Some(i) => i < entries@.len() && entries@[i as int].0@ == name@,
            None => forall|i: int| 0 <= i < entries@.len() ==> #[trigger] entries@[i].0@ != name@,
        },
{
    let mut i: usize = 0;
    while i < entries.len()
        invariant
            i <= entries@.len(),
            forall|j: int| 0 <= j < i ==> #[trigger] entries@[j].0@ != name@,
        decreases entries@.len() - i,
    {
        if entries[i].0 == *name {
            return Some(i);
        }
        i = i + 1;
    }
    None
}

fn read_quantity<Q: Copy>(q: &ReadQuantity<Q>) -> (res: Result<Q, Error>)
    ensures
        res == read_value(*q),
{
    match q.value {
        Some(v) => Ok(v),
        None => Err(Error::QuantityParsing(q.received.clone())),
    }
}

/// Collects the metrics of the cluster's nodes.
pub struct K8s;

impl K8s {
    pub fn new() -> (res: Self) {
        K8s
    }

    /// Aggregates, per node name, the usage reported by the metrics server
    /// and the allocatable resources listed in the nodes' status. Every
    /// node listed must have reported its usage. Fails on the first missing
    /// key or unreadable quantity, in the order the lists are given.
    pub fn get_k8s_metrics<C: Copy, M: Copy>(
        &self,
        metrics: &Vec<NodeMetricsInput<C, M>>,
        nodes: &Vec<NodeInput<C, M>>,
    ) -> (res: Result<Vec<(String, Metrics<C, M>)>, Error>)
        ensures
            match allocatables_of(usages_of(metrics@), nodes@) {
                Ok(m) => res matches Ok(entries) && names_unique(entries@) && entries_map(
                    entries@,
                ) == m,
                Err(e) => res == Err::<Vec<(String, Metrics<C, M>)>, Error>(e),
            },
    {
        let mut aggregated: Vec<(String, Metrics<C, M>)> = Vec::new();
        let mut i: usize = 0;
        proof {
            assert(metrics@.take(0) =~= Seq::<NodeMetricsInput<C, M>>::empty());
            assert(entries_map(aggregated@) =~= Map::<Seq<char>, Metrics<C, M>>::empty());
        }
        while i < metrics.len()
            invariant
                i <= metrics@.len(),
                names_unique(aggregated@),
                usages_of(metrics@.take(i as int)) == Ok::<Map<Seq<char>, Metrics<C, M>>, Error>(
                    entries_map(aggregated@),
                ),
            decreases metrics@.len() - i,
        {
            let item = &metrics[i];
            proof {
                assert(metrics@.take(i + 1).drop_last() =~= metrics@.take(i as int));
                assert(metrics@.take(i + 1).last() == *item);
            }
            let step: Result<(String, Usage<C, M>), Error> = match &item.name {
                None => Err(Error::MissingKey("metadata:name")),
                Some(name) => match read_quantity(&item.cpu) {
                    Err(e) => Err(e),
                    Ok(cpu) => match read_quantity(&item.memory) {
                        Err(e) => Err(e),
                        Ok(memory) => Ok((name.clone(), Usage { cpu, memory })),
                    },
                },
            };
            match step {
                Err(e) => {
                    proof {
                        lemma_usages_error_stays(metrics@, i + 1, metrics@.len() as int, e);
                        assert(metrics@.take(metrics@.len() as int) =~= metrics@);
                        lemma_allocatables_of_error(nodes@, e);
                    }
                    return Err(e);
                },
                Ok((name, usage)) => {
                    let value = Metrics { usage: Some(usage), allocatable: None };
                    match find_entry(&aggregated, &name) {
                        Some(j) => {
                            proof {
                                lemma_entries_update(aggregated@, j as int, value);
                            }
                            let key = aggregated[j].0.clone();
                            aggregated.set(j, (key, value));
                        },
                        None => {
                            proof {
                                lemma_entries_push(aggregated@, name, value);
                            }
                            aggregated.push((name, value));
                        },
                    }
                },
            }
            i = i + 1;
        }
        proof {
            assert(metrics@.take(metrics@.len() as int) =~= metrics@);
        }
        let ghost base = usages_of(metrics@);
        let mut k: usize = 0;
        proof {
            assert(nodes@.take(0) =~= Seq::<NodeInput<C, M>>::empty());
        }
        while k < nodes.len()
            invariant
                k <= nodes@.len(),
                names_unique(aggregated@),
                base == usages_of(metrics@),
                allocatables_of(base, nodes@.take(k as int)) == Ok::<
                    Map<Seq<char>, Metrics<C, M>>,
                    Error,
                >(entries_map(aggregated@)),
            decreases nodes@.len() - k,
        {
            let node = &nodes[k];
            proof {
                assert(nodes@.take(k + 1).drop_last() =~= nodes@.take(k as int));
                assert(nodes@.take(k + 1).last() == *node);
            }
            let step: Result<(usize, Allocatable<C, M>), Error> = match &node.status {
                None => Err(Error::MissingKey("status")),
                Some(status) => match &status.allocatable {
                    None => Err(Error::MissingKey("allocatable")),
                    Some(alloc) => match &node.name {
                        None => Err(Error::MissingKey("metadata:name")),
                        Some(name) => match &alloc.cpu {
                            None => Err(Error::MissingKey("cpu")),
                            Some(cpu_q) => match &alloc.memory {
                                None => Err(Error::MissingKey("memory")),
                                Some(memory_q) => match read_quantity(cpu_q) {
                                    Err(e) => Err(e),
                                    Ok(cpu) => match read_quantity(memory_q) {
                                        Err(e) => Err(e),
                                        Ok(memory) => match find_entry(&aggregated, name) {
                                            None => {
                                                proof {
                                                    if entries_map(aggregated@).dom().contains(name@) {
                                                        let c = choose|c: int|
                                                            0 <= c < aggregated@.len()
                                                                && #[trigger] aggregated@[c].0@
                                                                == name@;
                                                        assert(aggregated@[c].0@ != name@);
                                                    }
                                                }
                                                Err(Error::MissingKey("metadata:name"))
                                            },
                                            Some(j) => Ok((j, Allocatable { cpu, memory })),
                                        },
                                    },
                                },
                            },
                        },
                    },
                },
            };
            match step {
                Err(e) => {
                    proof {
                        lemma_allocatables_error_stays(base, nodes@, k + 1, nodes@.len() as int, e);
                        assert(nodes@.take(nodes@.len() as int) =~= nodes@);
                    }
                    return Err(e);
                },
                Ok((j, alloc)) => {
                    let old_value = aggregated[j].1;
                    let value = Metrics { usage: old_value.usage, allocatable: Some(alloc) };
                    proof {
                        lemma_entries_map_at(aggregated@, j as int);
                        lemma_entries_update(aggregated@, j as int, value);
                    }
                    let key = aggregated[j].0.clone();
                    aggregated.set(j, (key, value));
                },
            }
            k = k + 1;
        }
        proof {
            assert(nodes@.take(nodes@.len() as int) =~= nodes@);
        }
        Ok(aggregated)
    }
}

} // verus!
