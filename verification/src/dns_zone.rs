use vstd::prelude::*;

use crate::bunny::{DnsZone, QueriesByTypeChart};
use crate::chart::{
    is_keywise_max, is_keywise_sum, lemma_max_counts_is_keywise_max, lemma_summed_counts_is_keywise_sum,
    Chart, counts_addable, counts_fit, lemma_max_counts_idempotent, lemma_summed_counts_associative,
    lemma_summed_counts_empty, max_counts, summed_counts,
};
use crate::entity_stats::{DayData, EntityType};
use crate::text::{decimal, decimal_text, digit_char};

verus! {

/// The mnemonic of a DNS resource record type number, as the IANA registry of
/// DNS parameters lists it; `UNKNOWN` for a number it does not list.
pub open spec fn record_type_mnemonic(n: u32) -> &'static str {
    match n {
        1 => "A",
        2 => "NS",
        3 => "MD",
        4 => "MF",
        5 => "CNAME",
        6 => "SOA",
        7 => "MB",
        8 => "MG",
        9 => "MR",
        10 => "NULL",
        11 => "WKS",
        12 => "PTR",
        13 => "HINFO",
        14 => "MINFO",
        15 => "MX",
        16 => "TXT",
        17 => "RP",
        18 => "AFSDB",
        19 => "X25",
        20 => "ISDN",
        21 => "RT",
        22 => "NSAP",
        23 => "NSAP-PTR",
        24 => "SIG",
        25 => "KEY",
        26 => "PX",
        27 => "GPOS",
        28 => "AAAA",
        29 => "LOC",
        30 => "NXT",
        31 => "EID",
        32 => "NIMLOC",
        33 => "SRV",
        34 => "ATMA",
        35 => "NAPTR",
        36 => "KX",
        37 => "CERT",
        38 => "A6",
        39 => "DNAME",
        40 => "SINK",
        41 => "OPT",
        42 => "APL",
        43 => "DS",
        44 => "SSHFP",
        45 => "IPSECKEY",
        46 => "RRSIG",
        47 => "NSEC",
        48 => "DNSKEY",
        49 => "DHCID",
        50 => "NSEC3",
        51 => "NSEC3PARAM",
        52 => "TLSA",
        53 => "SMIMEA",
        54 => "Unassigned",
        55 => "HIP",
        56 => "NINFO",
        57 => "RKEY",
        58 => "TALINK",
        59 => "CDS",
        60 => "CDNSKEY",
        61 => "OPENPGPKEY",
        62 => "CSYNC",
        63 => "ZONEMD",
        64 => "SVCB",
        65 => "HTTPS",
        66 => "DSYNC",
        67 => "HHIT",
        68 => "BRID",
        99 => "SPF",
        100 => "UINFO",
        101 => "UID",
        102 => "GID",
        103 => "UNSPEC",
        104 => "NID",
        105 => "L32",
        106 => "L64",
        107 => "LP",
        108 => "EUI48",
        109 => "EUI64",
        128 => "NXNAME",
        249 => "TKEY",
        250 => "TSIG",
        251 => "IXFR",
        252 => "AXFR",
        253 => "MAILB",
        254 => "MAILA",
        255 => "*",
        256 => "URI",
        257 => "CAA",
        258 => "AVC",
        259 => "DOA",
        260 => "AMTRELAY",
        261 => "RESINFO",
        262 => "WALLET",
        263 => "CLA",
        264 => "IPN",
        32768 => "TA",
        32769 => "DLV",
        _ => "UNKNOWN",
    }
}

/// A character is a decimal digit.
pub open spec fn is_digit(c: char) -> bool {
    '0' <= c <= '9'
}

/// The number that a string of decimal digits denotes.
pub open spec fn digits_value(s: Seq<char>) -> nat
    decreases s.len(),
{
    if s.len() == 0 {
        0
    } else {
        digits_value(s.drop_last()) * 10 + (s.last() as nat - 48) as nat
    }
}

/// The text is a number written in decimal without leading zeros.
pub open spec fn canonical_number(s: Seq<char>) -> bool {
    &&& s.len() > 0
    &&& forall|i: int| 0 <= i < s.len() ==> is_digit(#[trigger] s[i])
    &&& (s.len() == 1 || s[0] != '0')
}

/// The name of a record type given as its number in decimal: the mnemonic for the
/// exact decimal text of a listed number, and `UNKNOWN` for any other text.
pub open spec fn type_name_of(s: Seq<char>) -> &'static str {
    if canonical_number(s) && digits_value(s) <= u32::MAX {
        record_type_mnemonic(digits_value(s) as u32)
    } else {
        "UNKNOWN"
    }
}

/// Ten to the power `k`.
pub open spec fn pow10(k: nat) -> nat
    decreases k,
{
    if k == 0 {
        1
    } else {
        10 * pow10((k - 1) as nat)
    }
}

proof fn lemma_digits_lower_bound(s: Seq<char>)
    requires
        s.len() > 0,
        forall|i: int| 0 <= i < s.len() ==> is_digit(#[trigger] s[i]),
        s[0] != '0',
    ensures
        digits_value(s) >= pow10((s.len() - 1) as nat),
    decreases s.len(),
{
    if s.len() > 1 {
        let t = s.drop_last();
        assert forall|i: int| 0 <= i < t.len() implies is_digit(#[trigger] t[i]) by {
            assert(t[i] == s[i]);
        }
        lemma_digits_lower_bound(t);
        assert(is_digit(s.last()));
    }
}

/// The number of a canonical decimal text of at most five digits.
fn parse_type_number(s: &str) -> (r: Option<u32>)
    ensures
        r matches Some(n) ==> canonical_number(s@) && n == digits_value(s@),
        r is None ==> !canonical_number(s@) || s@.len() > 5,
{
    let len = s.unicode_len();
    if len == 0 || len > 5 {
        return None;
    }
    if len > 1 && s.get_char(0) == '0' {
        return None;
    }
    let mut value: u32 = 0;
    let mut i: usize = 0;
    while i < len
        invariant
            len == s@.len(),
            1 <= len <= 5,
            i <= len,
            value == digits_value(s@.take(i as int)),
            value < pow10(i as nat),
            forall|j: int| 0 <= j < i ==> is_digit(#[trigger] s@[j]),
        decreases len - i,
    {
        let c = s.get_char(i);
        if c < '0' || c > '9' {
            assert(!is_digit(s@[i as int]));
            return None;
        }
        proof {
            assert(s@.take(i + 1).drop_last() =~= s@.take(i as int));
            assert(pow10((i + 1) as nat) == 10 * pow10(i as nat));
            assert(pow10(0) == 1 && pow10(1) == 10 && pow10(2) == 100 && pow10(3) == 1000 && pow10(4) == 10000 && pow10(5) == 100000);
        }
        value = value * 10 + (c as u32 - 48);
        i = i + 1;
    }
    assert(s@.take(len as int) =~= s@);
    Some(value)
}

/// The mnemonic of a DNS record type given by its number as text; `UNKNOWN` for a
/// text that is not the decimal number of a listed type.
pub fn dns_type_name(type_num: &str) -> (r: &'static str)
    ensures
        r == type_name_of(type_num@),
{
    proof {
        if canonical_number(type_num@) && type_num@.len() > 5 {
            lemma_digits_lower_bound(type_num@);
            assert(pow10(0) == 1 && pow10(1) == 10 && pow10(2) == 100 && pow10(3) == 1000 && pow10(4) == 10000 && pow10(5) == 100000);
            lemma_pow10_monotone(5, (type_num@.len() - 1) as nat);
        }
    }
    match parse_type_number(type_num) {
        Some(n) => mnemonic(n),
        None => "UNKNOWN",
    }
}

proof fn lemma_pow10_monotone(a: nat, b: nat)
    requires
        a <= b,
    ensures
        pow10(a) <= pow10(b),
    decreases b,
{
    if a < b {
        lemma_pow10_monotone(a, (b - 1) as nat);
    }
}

fn mnemonic(n: u32) -> (r: &'static str)
    ensures
        r == record_type_mnemonic(n),
{
    match n {
        1 => "A",
        2 => "NS",
        3 => "MD",
        4 => "MF",
        5 => "CNAME",
        6 => "SOA",
        7 => "MB",
        8 => "MG",
        9 => "MR",
        10 => "NULL",
        11 => "WKS",
        12 => "PTR",
        13 => "HINFO",
        14 => "MINFO",
        15 => "MX",
        16 => "TXT",
        17 => "RP",
        18 => "AFSDB",
        19 => "X25",
        20 => "ISDN",
        21 => "RT",
        22 => "NSAP",
        23 => "NSAP-PTR",
        24 => "SIG",
        25 => "KEY",
        26 => "PX",
        27 => "GPOS",
        28 => "AAAA",
        29 => "LOC",
        30 => "NXT",
        31 => "EID",
        32 => "NIMLOC",
        33 => "SRV",
        34 => "ATMA",
        35 => "NAPTR",
        36 => "KX",
        37 => "CERT",
        38 => "A6",
        39 => "DNAME",
        40 => "SINK",
        41 => "OPT",
        42 => "APL",
        43 => "DS",
        44 => "SSHFP",
        45 => "IPSECKEY",
        46 => "RRSIG",
        47 => "NSEC",
        48 => "DNSKEY",
        49 => "DHCID",
        50 => "NSEC3",
        51 => "NSEC3PARAM",
        52 => "TLSA",
        53 => "SMIMEA",
        54 => "Unassigned",
        55 => "HIP",
        56 => "NINFO",
        57 => "RKEY",
        58 => "TALINK",
        59 => "CDS",
        60 => "CDNSKEY",
        61 => "OPENPGPKEY",
        62 => "CSYNC",
        63 => "ZONEMD",
        64 => "SVCB",
        65 => "HTTPS",
        66 => "DSYNC",
        67 => "HHIT",
        68 => "BRID",
        99 => "SPF",
        100 => "UINFO",
        101 => "UID",
        102 => "GID",
        103 => "UNSPEC",
        104 => "NID",
        105 => "L32",
        106 => "L64",
        107 => "LP",
        108 => "EUI48",
        109 => "EUI64",
        128 => "NXNAME",
        249 => "TKEY",
        250 => "TSIG",
        251 => "IXFR",
        252 => "AXFR",
        253 => "MAILB",
        254 => "MAILA",
        255 => "*",
        256 => "URI",
        257 => "CAA",
        258 => "AVC",
        259 => "DOA",
        260 => "AMTRELAY",
        261 => "RESINFO",
        262 => "WALLET",
        263 => "CLA",
        264 => "IPN",
        32768 => "TA",
        32769 => "DLV",
        _ => "UNKNOWN",
    }
}

proof fn lemma_decimal_digits(n: nat)
    ensures
        decimal_text(n).len() > 0,
        forall|i: int| 0 <= i < decimal_text(n).len() ==> is_digit(#[trigger] decimal_text(n)[i]),
        decimal_text(n).len() == 1 || decimal_text(n)[0] != '0',
        digits_value(decimal_text(n)) == n,
    decreases n,
{
    if n < 10 {
        assert(decimal_text(n) =~= seq![digit_char(n as int)]);
        assert(decimal_text(n).drop_last() =~= Seq::<char>::empty());
        assert(digit_char(n as int) as nat == n + 48);
        assert(decimal_text(n).last() == digit_char(n as int));
        assert(digits_value(decimal_text(n)) == digits_value(decimal_text(n).drop_last()) * 10 + (decimal_text(n).last() as nat - 48) as nat);
        assert(digits_value(Seq::<char>::empty()) == 0);
    } else {
        lemma_decimal_digits(n / 10);
        let t = decimal_text(n / 10);
        let s = decimal_text(n);
        assert(s == t.push(digit_char((n % 10) as int)));
        assert(s.drop_last() =~= t);
        let d = (n % 10) as int;
        assert(digit_char(d) as nat == d + 48);
        assert(n == (n / 10) * 10 + n % 10) by (nonlinear_arith);
        assert(s.last() == digit_char(d));
        assert(digits_value(s) == digits_value(t) * 10 + (s.last() as nat - 48) as nat);
        assert forall|i: int| 0 <= i < s.len() implies is_digit(#[trigger] s[i]) by {
            if i < t.len() {
                assert(s[i] == t[i]);
            }
        }
        if t.len() == 1 {
            assert(t[0] != '0') by {
                if t[0] == '0' {
                    assert(digits_value(t.drop_last()) == 0);
                }
            }
        }
        assert(s[0] == t[0]);
    }
}

/// Every record type number written in decimal is named by its mnemonic.
pub proof fn lemma_decimal_type_number_named(n: u32)
    ensures
        type_name_of(decimal_text(n as nat)) == record_type_mnemonic(n),
{
    lemma_decimal_digits(n as nat);
}

/// The counts per record type name that a chart of counts per type number gives:
/// every number is named, and where several numbers give one name, the later entry's
/// count replaces the earlier one.
pub open spec fn counts_by_type_name(s: Seq<(Seq<char>, u64)>) -> Map<Seq<char>, u64>
    decreases s.len(),
{
    if s.len() == 0 {
        Map::empty()
    } else {
        counts_by_type_name(s.drop_last()).insert(type_name_of(s.last().0)@, s.last().1)
    }
}

/// The DNS zone category: per zone, normal and smart queries, and queries per record type.
pub struct DnsZoneKind;

impl EntityType for DnsZoneKind {
    type Entity = DnsZone;

    /// A zone is known by its numeric id, written in decimal.
    open spec fn id_of(entity: &DnsZone) -> Seq<char> {
        decimal_text(entity.id as nat)
    }

    /// A zone is labelled by its domain.
    open spec fn label_of(entity: &DnsZone) -> Seq<char> {
        entity.domain@
    }

    fn entity_id(entity: &DnsZone) -> (r: String) {
        decimal(entity.id)
    }

    fn entity_label(entity: &DnsZone) -> (r: String) {
        entity.domain.clone()
    }
}

impl DnsZoneKind {
    /// The data of a day: the two query counters as given, and the queries per type
    /// number renamed to queries per type name.
    pub fn day_data(
        normal_queries_served: u64,
        smart_queries_served: u64,
        queries_by_type_chart: &QueriesByTypeChart,
    ) -> (r: DnsDayData)
        ensures
            r.normal_queries_served == normal_queries_served,
            r.smart_queries_served == smart_queries_served,
            r.queries_served_per_type@ == counts_by_type_name(queries_by_type_chart.pairs()),
    {
        let mut per_type: Chart<u64> = Chart::new();
        let n = queries_by_type_chart.len();
        let mut i: usize = 0;
        while i < n
            invariant
                n == queries_by_type_chart.pairs().len(),
                i <= n,
                per_type@ == counts_by_type_name(queries_by_type_chart.pairs().take(i as int)),
            decreases n - i,
        {
            let name = dns_type_name(queries_by_type_chart.key_at(i).as_str());
            let value = *queries_by_type_chart.value_at(i);
            proof {
                let t = queries_by_type_chart.pairs().take(i + 1);
                assert(t.drop_last() =~= queries_by_type_chart.pairs().take(i as int));
            }
            per_type.insert(name.to_owned(), value);
            i = i + 1;
        }
        assert(queries_by_type_chart.pairs().take(n as int) =~= queries_by_type_chart.pairs());
        DnsDayData { normal_queries_served, smart_queries_served, queries_served_per_type: per_type }
    }
}

/// A DNS zone's query counters.
#[derive(Debug)]
pub struct DnsDayData {
    pub normal_queries_served: u64,
    pub smart_queries_served: u64,
    pub queries_served_per_type: QueriesByTypeChart,
}

impl View for DnsDayData {
    type V = (u64, u64, Map<Seq<char>, u64>);

    open spec fn view(&self) -> (u64, u64, Map<Seq<char>, u64>) {
        (self.normal_queries_served, self.smart_queries_served, self.queries_served_per_type@)
    }
}

impl Clone for DnsDayData {
    fn clone(&self) -> (r: Self)
        ensures
            r@ == self@,
    {
        DnsDayData {
            normal_queries_served: self.normal_queries_served,
            smart_queries_served: self.smart_queries_served,
            queries_served_per_type: self.queries_served_per_type.duplicate(),
        }
    }
}

impl Default for DnsDayData {
    fn default() -> (r: Self)
        ensures
            r@ == (0u64, 0u64, Map::<Seq<char>, u64>::empty()),
    {
        DnsDayData { normal_queries_served: 0, smart_queries_served: 0, queries_served_per_type: Chart::new() }
    }
}

impl DayData for DnsDayData {
    /// All counters add up, per record type too.
    open spec fn accumulated(
        total: (u64, u64, Map<Seq<char>, u64>),
        day: (u64, u64, Map<Seq<char>, u64>),
    ) -> (u64, u64, Map<Seq<char>, u64>) {
        ((total.0 + day.0) as u64, (total.1 + day.1) as u64, summed_counts(total.2, day.2))
    }

    open spec fn can_accumulate(
        total: (u64, u64, Map<Seq<char>, u64>),
        day: (u64, u64, Map<Seq<char>, u64>),
    ) -> bool {
        &&& total.0 + day.0 <= u64::MAX
        &&& total.1 + day.1 <= u64::MAX
        &&& counts_addable(total.2, day.2)
    }

    /// Every counter keeps the larger of the two fetches, per record type too; types
    /// that only one of them has are kept.
    open spec fn merged(
        current: (u64, u64, Map<Seq<char>, u64>),
        snapshot: (u64, u64, Map<Seq<char>, u64>),
    ) -> (u64, u64, Map<Seq<char>, u64>) {
        (
            if current.0 >= snapshot.0 { current.0 } else { snapshot.0 },
            if current.1 >= snapshot.1 { current.1 } else { snapshot.1 },
            max_counts(current.2, snapshot.2),
        )
    }

    open spec fn zero() -> (u64, u64, Map<Seq<char>, u64>) {
        (0, 0, Map::empty())
    }

    proof fn lemma_merge_idempotent(current: (u64, u64, Map<Seq<char>, u64>), snapshot: (u64, u64, Map<Seq<char>, u64>)) {
        lemma_max_counts_idempotent(current.2, snapshot.2);
    }

    proof fn lemma_merge_into_zero(snapshot: (u64, u64, Map<Seq<char>, u64>)) {
        assert(max_counts(Map::empty(), snapshot.2) =~= snapshot.2);
    }

    proof fn lemma_accumulate_zero(total: (u64, u64, Map<Seq<char>, u64>)) {
        lemma_summed_counts_empty(total.2);
    }

    proof fn lemma_accumulate_associative(a: (u64, u64, Map<Seq<char>, u64>), b: (u64, u64, Map<Seq<char>, u64>), c: (u64, u64, Map<Seq<char>, u64>)) {
        lemma_summed_counts_associative(a.2, b.2, c.2);
    }

    fn accumulate(&mut self, day: Self) {
        self.normal_queries_served = self.normal_queries_served + day.normal_queries_served;
        self.smart_queries_served = self.smart_queries_served + day.smart_queries_served;
        self.queries_served_per_type.add_counts(&day.queries_served_per_type);
    }

    fn merge_latest(&mut self, snapshot: Self) {
        if snapshot.normal_queries_served > self.normal_queries_served {
            self.normal_queries_served = snapshot.normal_queries_served;
        }
        if snapshot.smart_queries_served > self.smart_queries_served {
            self.smart_queries_served = snapshot.smart_queries_served;
        }
        self.queries_served_per_type.max_counts_with(&snapshot.queries_served_per_type);
    }

    fn empty() -> (r: Self) {
        DnsDayData { normal_queries_served: 0, smart_queries_served: 0, queries_served_per_type: Chart::new() }
    }

    fn can_add(&self, day: &Self) -> (r: bool) {
        self.normal_queries_served <= u64::MAX - day.normal_queries_served && self.smart_queries_served
            <= u64::MAX - day.smart_queries_served && counts_fit(
            &self.queries_served_per_type,
            &day.queries_served_per_type,
        )
    }
}

/// Different listed record type numbers have different mnemonics.
proof fn lemma_mnemonic_injective(n: u32, m: u32)
    requires
        n != m,
        record_type_mnemonic(n) != "UNKNOWN",
        record_type_mnemonic(m) != "UNKNOWN",
    ensures
        record_type_mnemonic(n) != record_type_mnemonic(m),
{
}

/// A number written in decimal without leading zeros is the decimal text of its value.
proof fn lemma_canonical_is_decimal(s: Seq<char>)
    requires
        canonical_number(s),
    ensures
        decimal_text(digits_value(s)) == s,
    decreases s.len(),
{
    let v = digits_value(s);
    let d = (s.last() as nat - 48) as nat;
    assert(is_digit(s[s.len() - 1]));
    assert(d < 10);
    assert(digit_char(d as int) == s.last());
    if s.len() == 1 {
        assert(s.drop_last() =~= Seq::<char>::empty());
        assert(digits_value(Seq::<char>::empty()) == 0);
        assert(v == digits_value(s.drop_last()) * 10 + d);
        assert(v == d);
        assert(decimal_text(v) =~= seq![digit_char(v as int)]);
        assert(s =~= seq![s.last()]);
    } else {
        let t = s.drop_last();
        assert forall|i: int| 0 <= i < t.len() implies is_digit(#[trigger] t[i]) by {
            assert(t[i] == s[i]);
        }
        assert(t[0] == s[0]);
        lemma_canonical_is_decimal(t);
        lemma_digits_lower_bound(t);
        let w = digits_value(t);
        assert(v == w * 10 + d);
        assert(w >= 1);
        assert(v / 10 == w && v % 10 == d && v >= 10) by (nonlinear_arith)
            requires
                v == w * 10 + d,
                d < 10,
                w >= 1,
        ;
        assert(decimal_text(v) == decimal_text(v / 10).push(digit_char((v % 10) as int)));
        assert(s =~= t.push(s.last()));
    }
}

/// Different texts that both name a listed record type name different types, so the
/// per-type counters of different record types never share a type label.
pub proof fn lemma_known_type_names_distinct(a: Seq<char>, b: Seq<char>)
    requires
        a != b,
        type_name_of(a) != "UNKNOWN",
        type_name_of(b) != "UNKNOWN",
    ensures
        type_name_of(a) != type_name_of(b),
{
    lemma_canonical_is_decimal(a);
    lemma_canonical_is_decimal(b);
    lemma_mnemonic_injective(digits_value(a) as u32, digits_value(b) as u32);
}

/// Adding a day adds each counter on its own (normal queries, smart queries, and the
/// queries of each record type), and can be done exactly when none leaves `u64`; data on
/// which nothing was counted has no queries.
pub proof fn lemma_dns_accumulate_adds_each_counter(t: (u64, u64, Map<Seq<char>, u64>), d: (u64, u64, Map<Seq<char>, u64>))
    ensures
        <DnsDayData as DayData>::can_accumulate(t, d) <==> (t.0 + d.0 <= u64::MAX && t.1 + d.1 <= u64::MAX && counts_addable(t.2, d.2)),
        <DnsDayData as DayData>::can_accumulate(t, d) ==> <DnsDayData as DayData>::accumulated(t, d).0 == t.0 + d.0,
        <DnsDayData as DayData>::can_accumulate(t, d) ==> <DnsDayData as DayData>::accumulated(t, d).1 == t.1 + d.1,
        <DnsDayData as DayData>::can_accumulate(t, d) ==> is_keywise_sum(t.2, d.2, <DnsDayData as DayData>::accumulated(t, d).2),
        <DnsDayData as DayData>::zero() == (0u64, 0u64, Map::<Seq<char>, u64>::empty()),
{
    if <DnsDayData as DayData>::can_accumulate(t, d) {
        lemma_summed_counts_is_keywise_sum(t.2, d.2);
    }
}

/// Folding in a newer fetch keeps, for each counter and each record type, the larger of
/// the two values, so no counter goes down.
pub proof fn lemma_dns_merge_keeps_larger(c: (u64, u64, Map<Seq<char>, u64>), s: (u64, u64, Map<Seq<char>, u64>))
    ensures
        <DnsDayData as DayData>::merged(c, s).0 >= c.0 && <DnsDayData as DayData>::merged(c, s).0 >= s.0,
        <DnsDayData as DayData>::merged(c, s).0 == c.0 || <DnsDayData as DayData>::merged(c, s).0 == s.0,
        <DnsDayData as DayData>::merged(c, s).1 >= c.1 && <DnsDayData as DayData>::merged(c, s).1 >= s.1,
        <DnsDayData as DayData>::merged(c, s).1 == c.1 || <DnsDayData as DayData>::merged(c, s).1 == s.1,
        is_keywise_max(c.2, s.2, <DnsDayData as DayData>::merged(c, s).2),
{
    lemma_max_counts_is_keywise_max(c.2, s.2);
}

/// The record type numbers of the IANA registry of DNS parameters are named by their
/// mnemonics, each written here against its number.
pub proof fn lemma_registry_type_names(n: u32)
    ensures
        n == 1 ==> type_name_of(decimal_text(n as nat)) == "A",
        n == 2 ==> type_name_of(decimal_text(n as nat)) == "NS",
        n == 3 ==> type_name_of(decimal_text(n as nat)) == "MD",
        n == 4 ==> type_name_of(decimal_text(n as nat)) == "MF",
        n == 5 ==> type_name_of(decimal_text(n as nat)) == "CNAME",
        n == 6 ==> type_name_of(decimal_text(n as nat)) == "SOA",
        n == 7 ==> type_name_of(decimal_text(n as nat)) == "MB",
        n == 8 ==> type_name_of(decimal_text(n as nat)) == "MG",
        n == 9 ==> type_name_of(decimal_text(n as nat)) == "MR",
        n == 10 ==> type_name_of(decimal_text(n as nat)) == "NULL",
        n == 11 ==> type_name_of(decimal_text(n as nat)) == "WKS",
        n == 12 ==> type_name_of(decimal_text(n as nat)) == "PTR",
        n == 13 ==> type_name_of(decimal_text(n as nat)) == "HINFO",
        n == 14 ==> type_name_of(decimal_text(n as nat)) == "MINFO",
        n == 15 ==> type_name_of(decimal_text(n as nat)) == "MX",
        n == 16 ==> type_name_of(decimal_text(n as nat)) == "TXT",
        n == 17 ==> type_name_of(decimal_text(n as nat)) == "RP",
        n == 18 ==> type_name_of(decimal_text(n as nat)) == "AFSDB",
        n == 19 ==> type_name_of(decimal_text(n as nat)) == "X25",
        n == 20 ==> type_name_of(decimal_text(n as nat)) == "ISDN",
        n == 21 ==> type_name_of(decimal_text(n as nat)) == "RT",
        n == 22 ==> type_name_of(decimal_text(n as nat)) == "NSAP",
        n == 23 ==> type_name_of(decimal_text(n as nat)) == "NSAP-PTR",
        n == 24 ==> type_name_of(decimal_text(n as nat)) == "SIG",
        n == 25 ==> type_name_of(decimal_text(n as nat)) == "KEY",
        n == 26 ==> type_name_of(decimal_text(n as nat)) == "PX",
        n == 27 ==> type_name_of(decimal_text(n as nat)) == "GPOS",
        n == 28 ==> type_name_of(decimal_text(n as nat)) == "AAAA",
        n == 29 ==> type_name_of(decimal_text(n as nat)) == "LOC",
        n == 30 ==> type_name_of(decimal_text(n as nat)) == "NXT",
        n == 31 ==> type_name_of(decimal_text(n as nat)) == "EID",
        n == 32 ==> type_name_of(decimal_text(n as nat)) == "NIMLOC",
        n == 33 ==> type_name_of(decimal_text(n as nat)) == "SRV",
        n == 34 ==> type_name_of(decimal_text(n as nat)) == "ATMA",
        n == 35 ==> type_name_of(decimal_text(n as nat)) == "NAPTR",
        n == 36 ==> type_name_of(decimal_text(n as nat)) == "KX",
        n == 37 ==> type_name_of(decimal_text(n as nat)) == "CERT",
        n == 38 ==> type_name_of(decimal_text(n as nat)) == "A6",
        n == 39 ==> type_name_of(decimal_text(n as nat)) == "DNAME",
        n == 40 ==> type_name_of(decimal_text(n as nat)) == "SINK",
        n == 41 ==> type_name_of(decimal_text(n as nat)) == "OPT",
        n == 42 ==> type_name_of(decimal_text(n as nat)) == "APL",
        n == 43 ==> type_name_of(decimal_text(n as nat)) == "DS",
        n == 44 ==> type_name_of(decimal_text(n as nat)) == "SSHFP",
        n == 45 ==> type_name_of(decimal_text(n as nat)) == "IPSECKEY",
        n == 46 ==> type_name_of(decimal_text(n as nat)) == "RRSIG",
        n == 47 ==> type_name_of(decimal_text(n as nat)) == "NSEC",
        n == 48 ==> type_name_of(decimal_text(n as nat)) == "DNSKEY",
        n == 49 ==> type_name_of(decimal_text(n as nat)) == "DHCID",
        n == 50 ==> type_name_of(decimal_text(n as nat)) == "NSEC3",
        n == 51 ==> type_name_of(decimal_text(n as nat)) == "NSEC3PARAM",
        n == 52 ==> type_name_of(decimal_text(n as nat)) == "TLSA",
        n == 53 ==> type_name_of(decimal_text(n as nat)) == "SMIMEA",
        n == 54 ==> type_name_of(decimal_text(n as nat)) == "Unassigned",
        n == 55 ==> type_name_of(decimal_text(n as nat)) == "HIP",
        n == 56 ==> type_name_of(decimal_text(n as nat)) == "NINFO",
        n == 57 ==> type_name_of(decimal_text(n as nat)) == "RKEY",
        n == 58 ==> type_name_of(decimal_text(n as nat)) == "TALINK",
        n == 59 ==> type_name_of(decimal_text(n as nat)) == "CDS",
        n == 60 ==> type_name_of(decimal_text(n as nat)) == "CDNSKEY",
        n == 61 ==> type_name_of(decimal_text(n as nat)) == "OPENPGPKEY",
        n == 62 ==> type_name_of(decimal_text(n as nat)) == "CSYNC",
        n == 63 ==> type_name_of(decimal_text(n as nat)) == "ZONEMD",
        n == 64 ==> type_name_of(decimal_text(n as nat)) == "SVCB",
        n == 65 ==> type_name_of(decimal_text(n as nat)) == "HTTPS",
        n == 66 ==> type_name_of(decimal_text(n as nat)) == "DSYNC",
        n == 67 ==> type_name_of(decimal_text(n as nat)) == "HHIT",
        n == 68 ==> type_name_of(decimal_text(n as nat)) == "BRID",
        n == 99 ==> type_name_of(decimal_text(n as nat)) == "SPF",
        n == 100 ==> type_name_of(decimal_text(n as nat)) == "UINFO",
        n == 101 ==> type_name_of(decimal_text(n as nat)) == "UID",
        n == 102 ==> type_name_of(decimal_text(n as nat)) == "GID",
        n == 103 ==> type_name_of(decimal_text(n as nat)) == "UNSPEC",
        n == 104 ==> type_name_of(decimal_text(n as nat)) == "NID",
        n == 105 ==> type_name_of(decimal_text(n as nat)) == "L32",
        n == 106 ==> type_name_of(decimal_text(n as nat)) == "L64",
        n == 107 ==> type_name_of(decimal_text(n as nat)) == "LP",
        n == 108 ==> type_name_of(decimal_text(n as nat)) == "EUI48",
        n == 109 ==> type_name_of(decimal_text(n as nat)) == "EUI64",
        n == 128 ==> type_name_of(decimal_text(n as nat)) == "NXNAME",
        n == 249 ==> type_name_of(decimal_text(n as nat)) == "TKEY",
        n == 250 ==> type_name_of(decimal_text(n as nat)) == "TSIG",
        n == 251 ==> type_name_of(decimal_text(n as nat)) == "IXFR",
        n == 252 ==> type_name_of(decimal_text(n as nat)) == "AXFR",
        n == 253 ==> type_name_of(decimal_text(n as nat)) == "MAILB",
        n == 254 ==> type_name_of(decimal_text(n as nat)) == "MAILA",
        n == 255 ==> type_name_of(decimal_text(n as nat)) == "*",
        n == 256 ==> type_name_of(decimal_text(n as nat)) == "URI",
        n == 257 ==> type_name_of(decimal_text(n as nat)) == "CAA",
        n == 258 ==> type_name_of(decimal_text(n as nat)) == "AVC",
        n == 259 ==> type_name_of(decimal_text(n as nat)) == "DOA",
        n == 260 ==> type_name_of(decimal_text(n as nat)) == "AMTRELAY",
        n == 261 ==> type_name_of(decimal_text(n as nat)) == "RESINFO",
        n == 262 ==> type_name_of(decimal_text(n as nat)) == "WALLET",
        n == 263 ==> type_name_of(decimal_text(n as nat)) == "CLA",
        n == 264 ==> type_name_of(decimal_text(n as nat)) == "IPN",
        n == 32768 ==> type_name_of(decimal_text(n as nat)) == "TA",
        n == 32769 ==> type_name_of(decimal_text(n as nat)) == "DLV",
{
    lemma_decimal_type_number_named(n);
}

/// Every number that the IANA registry does not list is named `UNKNOWN`.
pub proof fn lemma_unlisted_type_numbers_unknown(n: u32)
    requires
        !(n == 1 || n == 2 || n == 3 || n == 4 || n == 5 || n == 6 || n == 7 || n == 8 || n == 9 || n == 10 || n == 11 || n == 12 || n == 13 || n == 14 || n == 15 || n == 16 || n == 17 || n == 18 || n == 19 || n == 20 || n == 21 || n == 22 || n == 23 || n == 24 || n == 25 || n == 26 || n == 27 || n == 28 || n == 29 || n == 30 || n == 31 || n == 32 || n == 33 || n == 34 || n == 35 || n == 36 || n == 37 || n == 38 || n == 39 || n == 40 || n == 41 || n == 42 || n == 43 || n == 44 || n == 45 || n == 46 || n == 47 || n == 48 || n == 49 || n == 50 || n == 51 || n == 52 || n == 53 || n == 54 || n == 55 || n == 56 || n == 57 || n == 58 || n == 59 || n == 60 || n == 61 || n == 62 || n == 63 || n == 64 || n == 65 || n == 66 || n == 67 || n == 68 || n == 99 || n == 100 || n == 101 || n == 102 || n == 103 || n == 104 || n == 105 || n == 106 || n == 107 || n == 108 || n == 109 || n == 128 || n == 249 || n == 250 || n == 251 || n == 252 || n == 253 || n == 254 || n == 255 || n == 256 || n == 257 || n == 258 || n == 259 || n == 260 || n == 261 || n == 262 || n == 263 || n == 264 || n == 32768 || n == 32769),
    ensures
        type_name_of(decimal_text(n as nat)) == "UNKNOWN",
{
    lemma_decimal_type_number_named(n);
}

} // verus!
