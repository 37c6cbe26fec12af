//! The GeoIP table: ten-byte records `from`, `to`, country code, sorted by
//! `from`, and the lookup of an address in it.

use vstd::prelude::*;
use vstd::seq_lib::*;
use vstd::utf8::{decode_utf8, valid_utf8};
use crate::text::string_from_utf8;

verus! {

/// The size of one record.
pub const ENTRY_SIZE: usize = 10;

/// Four bytes in network order as a number.
pub open spec fn be32(b0: u8, b1: u8, b2: u8, b3: u8) -> u32 {
    (b0 as int * 16777216 + b1 as int * 65536 + b2 as int * 256 + b3 as int) as u32
}

/// A number as four bytes in network order.
pub open spec fn octets(x: u32) -> Seq<u8> {
    seq![
        (x as int / 16777216) as u8,
        (x as int / 65536 % 256) as u8,
        (x as int / 256 % 256) as u8,
        (x as int % 256) as u8,
    ]
}

/// One record of the table.
pub struct GeoRecord {
    pub from: u32,
    pub to: u32,
    pub code: Seq<u8>,
}

/// A range of IPv4 addresses and the country it belongs to, laid out as it
/// is stored.
#[derive(Debug, Clone, Copy, PartialEq, Eq)]
pub struct GeoIPv4Entry {
    from: [u8; 4],
    to: [u8; 4],
    country_code: [u8; 2],
}

impl View for GeoIPv4Entry {
    type V = GeoRecord;

    closed spec fn view(&self) -> GeoRecord {
        GeoRecord {
            from: be32(self.from[0], self.from[1], self.from[2], self.from[3]),
            to: be32(self.to[0], self.to[1], self.to[2], self.to[3]),
            code: self.country_code@,
        }
    }
}

fn read_be32(b0: u8, b1: u8, b2: u8, b3: u8) -> (x: u32)
    ensures
        x == be32(b0, b1, b2, b3),
{
    (b0 as u32) * 16777216 + (b1 as u32) * 65536 + (b2 as u32) * 256 + (b3 as u32)
}

fn write_be32(x: u32) -> (b: [u8; 4])
    ensures
        b@ == octets(x),
        be32(b[0], b[1], b[2], b[3]) == x,
{
    let b = [(x / 16777216) as u8, (x / 65536 % 256) as u8, (x / 256 % 256) as u8, (x % 256) as u8];
    assert(b@ =~= octets(x));
    b
}

impl GeoIPv4Entry {
    /// The bytes of the record as stored.
    pub closed spec fn bytes(&self) -> Seq<u8> {
        self.from@ + self.to@ + self.country_code@
    }

    /// The first address of the range.
    pub fn from(&self) -> (ip: u32)
        ensures
            ip == self@.from,
    {
        read_be32(self.from[0], self.from[1], self.from[2], self.from[3])
    }

    /// The last address of the range.
    pub fn to(&self) -> (ip: u32)
        ensures
            ip == self@.to,
    {
        read_be32(self.to[0], self.to[1], self.to[2], self.to[3])
    }

    /// The two letters of the country.
    pub fn country_code(&self) -> (code: [u8; 2])
        ensures
            code@ == self@.code,
    {
        self.country_code
    }

    /// The range `from..=to` of country `country_code`.
    pub fn new(from: u32, to: u32, country_code: [u8; 2]) -> (entry: GeoIPv4Entry)
        requires
            to >= from,
        ensures
            entry@ == (GeoRecord { from, to, code: country_code@ }),
            entry.bytes() == octets(from) + octets(to) + country_code@,
    {
        GeoIPv4Entry { from: write_be32(from), to: write_be32(to), country_code }
    }
}

/// The bits of an address that a prefix of `prefix` bits leaves free.
pub open spec fn host_mask(prefix: u8) -> u32 {
    if prefix >= 32 {
        0
    } else {
        u32::MAX >> prefix
    }
}

impl GeoIPv4Entry {
    /// The range from `addr` to the last address of the network
    /// `addr/prefix`, for country `country_code`; nothing where the prefix
    /// is longer than an address.
    pub fn from_cidr(addr: u32, prefix: u8, country_code: [u8; 2]) -> (entry: Option<GeoIPv4Entry>)
        ensures
            entry is Some <==> prefix <= 32,
            entry matches Some(e) ==> e@ == (GeoRecord {
                from: addr,
                to: addr | host_mask(prefix),
                code: country_code@,
            }),
    {
        if prefix > 32 {
            return None;
        }
        let mask: u32 = if prefix == 32 { 0 } else { u32::MAX >> prefix };
        let last = addr | mask;
        assert(addr | mask >= addr) by (bit_vector);
        Some(GeoIPv4Entry::new(addr, last, country_code))
    }
}

/// The number of whole records in `data`.
pub open spec fn entry_count(data: Seq<u8>) -> int {
    data.len() as int / 10
}

/// The record number `i` of `data`.
pub open spec fn entry_at(data: Seq<u8>, i: int) -> GeoRecord {
    let at = 10 * i;
    GeoRecord {
        from: be32(data[at], data[at + 1], data[at + 2], data[at + 3]),
        to: be32(data[at + 4], data[at + 5], data[at + 6], data[at + 7]),
        code: seq![data[at + 8], data[at + 9]],
    }
}

/// The records start at ever greater addresses.
pub open spec fn ascending(data: Seq<u8>) -> bool {
    forall|i: int, j: int|
        0 <= i < j < entry_count(data) ==> (#[trigger] entry_at(data, i)).from < (#[trigger] entry_at(
            data,
            j,
        )).from
}

/// No record ends before it starts.
pub open spec fn ranges_valid(data: Seq<u8>) -> bool {
    forall|i: int| 0 <= i < entry_count(data) ==> (#[trigger] entry_at(data, i)).from <= entry_at(data, i).to
}

/// Each record ends before the next one starts.
pub open spec fn non_overlapping(data: Seq<u8>) -> bool {
    forall|i: int, j: int|
        0 <= i < j < entry_count(data) ==> (#[trigger] entry_at(data, i)).to < (#[trigger] entry_at(
            data,
            j,
        )).from
}

/// The last of the first `n` records that starts at or before `ip`, or -1.
pub open spec fn floor_index(data: Seq<u8>, ip: u32, n: int) -> int
    decreases n,
{
    if n <= 0 {
        -1
    } else if entry_at(data, n - 1).from <= ip {
        n - 1
    } else {
        floor_index(data, ip, n - 1)
    }
}

/// The country code of the record that starts last at or before `ip`, if
/// `ip` lies in that record.
pub open spec fn spec_find(data: Seq<u8>, ip: u32) -> Option<Seq<u8>> {
    let k = floor_index(data, ip, entry_count(data));
    if k >= 0 && ip <= entry_at(data, k).to {
        Some(entry_at(data, k).code)
    } else {
        None
    }
}

/// Whether record `k` holds `ip`.
pub open spec fn holds(data: Seq<u8>, k: int, ip: u32) -> bool {
    0 <= k < entry_count(data) && entry_at(data, k).from <= ip <= entry_at(data, k).to
}

/// Why a lookup fails.
#[derive(Debug, Clone, Copy, PartialEq, Eq, Structural)]
pub enum GeoIpError {
    /// The table's length is no multiple of the record size.
    InvalidLength,
    /// The country code found is not valid UTF-8.
    InvalidCountryCode,
}

/// `floor_index` is at most `n - 1`, points at a record that starts at or
/// before `ip`, and every later record among the first `n` starts after `ip`.
pub proof fn lemma_floor_index(data: Seq<u8>, ip: u32, n: int)
    ensures
        -1 <= floor_index(data, ip, n) < (if n > 0 { n } else { 0 }),
        floor_index(data, ip, n) >= 0 ==> entry_at(data, floor_index(data, ip, n)).from <= ip,
        forall|j: int| floor_index(data, ip, n) < j < n ==> (#[trigger] entry_at(data, j)).from > ip,
    decreases n,
{
    if n > 0 && entry_at(data, n - 1).from > ip {
        lemma_floor_index(data, ip, n - 1);
    }
}

/// Where every record from `lo` on starts after `ip`, and the one before
/// `lo`, if there is one, does not, the floor is `lo - 1`.
proof fn lemma_floor_found(data: Seq<u8>, ip: u32, lo: int, n: int)
    requires
        0 <= lo <= n,
        lo > 0 ==> entry_at(data, lo - 1).from <= ip,
        forall|j: int| lo <= j < n ==> (#[trigger] entry_at(data, j)).from > ip,
    ensures
        floor_index(data, ip, n) == lo - 1,
    decreases n - lo,
{
    if n > lo {
        lemma_floor_found(data, ip, lo, n - 1);
    }
}

/// In a table whose records are valid and do not overlap, a lookup finds a
/// country exactly when some record holds the address, and the country is
/// that record's: the record that starts last at or before the address.
pub proof fn lemma_find_iff_held(data: Seq<u8>, ip: u32)
    requires
        ranges_valid(data),
        non_overlapping(data),
    ensures
        ascending(data),
        spec_find(data, ip) is Some <==> exists|k: int| holds(data, k, ip),
        forall|k: int| holds(data, k, ip) ==> spec_find(data, ip) == Some(entry_at(data, k).code)
            && k == floor_index(data, ip, entry_count(data)),
{
    let n = entry_count(data);
    let f = floor_index(data, ip, n);
    lemma_floor_index(data, ip, n);
    assert(ascending(data)) by {
        assert forall|i: int, j: int| 0 <= i < j < n implies (#[trigger] entry_at(data, i)).from < (
        #[trigger] entry_at(data, j)).from by {
            assert(entry_at(data, i).from <= entry_at(data, i).to);
        }
    }
    assert forall|k: int| holds(data, k, ip) implies spec_find(data, ip) == Some(
        entry_at(data, k).code,
    ) && k == f by {
        if k < f {
            assert(entry_at(data, k).to < entry_at(data, f).from);
        } else if k > f {
            assert(entry_at(data, k).from > ip);
        }
    }
    if spec_find(data, ip) is Some {
        assert(holds(data, f, ip));
    }
}

/// Looks `ip` up in `sorted_serialized_data`, a table of records sorted by
/// their first address.
pub fn find_country_code_v4(ip: u32, sorted_serialized_data: &[u8]) -> (res: Result<
    Option<String>,
    GeoIpError,
>)
    ensures
        res == Err::<Option<String>, GeoIpError>(GeoIpError::InvalidLength)
            <==> sorted_serialized_data@.len() % 10 != 0,
        res matches Ok(Some(code)) ==> exists|k: int|
            holds(sorted_serialized_data@, k, ip) && code@ == decode_utf8(
                #[trigger] entry_at(sorted_serialized_data@, k).code,
            ),
        sorted_serialized_data@.len() % 10 == 0 && ascending(sorted_serialized_data@) ==> (
        match spec_find(sorted_serialized_data@, ip) {
            None => res matches Ok(None),
            Some(raw) => if valid_utf8(raw) {
                res matches Ok(Some(code)) && code@ == decode_utf8(raw)
            } else {
                res == Err::<Option<String>, GeoIpError>(GeoIpError::InvalidCountryCode)
            },
        }),
{
    let data = sorted_serialized_data;
    if data.len() % ENTRY_SIZE != 0 {
        return Err(GeoIpError::InvalidLength);
    }
    let count: usize = data.len() / ENTRY_SIZE;
    let mut lo: usize = 0;
    let mut hi: usize = count;
    while lo < hi
        invariant
            0 <= lo <= hi <= count,
            count == entry_count(data@),
            data@.len() == 10 * count,
            data@.len() <= usize::MAX,
            ascending(data@) ==> forall|j: int| 0 <= j < lo ==> (#[trigger] entry_at(data@, j)).from <= ip,
            ascending(data@) ==> forall|j: int|
                hi <= j < count ==> (#[trigger] entry_at(data@, j)).from > ip,
        decreases hi - lo,
    {
        let mid = lo + (hi - lo) / 2;
        let at = mid * ENTRY_SIZE;
        let from = read_be32(data[at], data[at + 1], data[at + 2], data[at + 3]);
        assert(from == entry_at(data@, mid as int).from);
        if from <= ip {
            lo = mid + 1;
        } else {
            hi = mid;
        }
    }
    if lo == 0 {
        proof {
            if ascending(data@) {
                lemma_floor_found(data@, ip, 0, count as int);
            }
        }
        return Ok(None);
    }
    let k = lo - 1;
    let at = k * ENTRY_SIZE;
    let from = read_be32(data[at], data[at + 1], data[at + 2], data[at + 3]);
    let to = read_be32(data[at + 4], data[at + 5], data[at + 6], data[at + 7]);
    proof {
        if ascending(data@) {
            lemma_floor_found(data@, ip, lo as int, count as int);
        }
    }
    if from <= ip && ip <= to {
        let mut raw: Vec<u8> = Vec::new();
        raw.push(data[at + 8]);
        raw.push(data[at + 9]);
        assert(raw@ =~= entry_at(data@, k as int).code);
        match string_from_utf8(raw) {
            Some(code) => {
                assert(holds(data@, k as int, ip));
                Ok(Some(code))
            },
            None => Err(GeoIpError::InvalidCountryCode),
        }
    } else {
        Ok(None)
    }
}

/// The order in which records are stored: by first address, then by last
/// address, then by country code.
pub open spec fn record_le(a: GeoRecord, b: GeoRecord) -> bool {
    if a.from != b.from {
        a.from < b.from
    } else if a.to != b.to {
        a.to < b.to
    } else if a.code[0] != b.code[0] {
        a.code[0] < b.code[0]
    } else {
        a.code[1] <= b.code[1]
    }
}

/// The records of a table.
pub open spec fn records(data: Seq<u8>) -> Seq<GeoRecord> {
    Seq::new(entry_count(data) as nat, |i: int| entry_at(data, i))
}

/// The records that entries stand for.
pub open spec fn views(entries: Seq<GeoIPv4Entry>) -> Seq<GeoRecord> {
    Seq::new(entries.len(), |i: int| entries[i]@)
}

/// Whether records stand in storage order.
pub open spec fn in_order(recs: Seq<GeoRecord>) -> bool {
    forall|i: int, j: int| 0 <= i < j < recs.len() ==> record_le(#[trigger] recs[i], #[trigger] recs[j])
}

fn entry_le(a: &GeoIPv4Entry, b: &GeoIPv4Entry) -> (le: bool)
    ensures
        le == record_le(a@, b@),
{
    let (af, bf) = (a.from(), b.from());
    let (at, bt) = (a.to(), b.to());
    if af != bf {
        af < bf
    } else if at != bt {
        at < bt
    } else if a.country_code[0] != b.country_code[0] {
        a.country_code[0] < b.country_code[0]
    } else {
        a.country_code[1] <= b.country_code[1]
    }
}

/// Sorts entries into storage order.
pub fn sort_entries(entries: &Vec<GeoIPv4Entry>) -> (sorted: Vec<GeoIPv4Entry>)
    ensures
        sorted@.len() == entries@.len(),
        in_order(views(sorted@)),
        views(sorted@).to_multiset() == views(entries@).to_multiset(),
{
    let mut sorted: Vec<GeoIPv4Entry> = Vec::new();
    let mut k: usize = 0;
    assert(views(sorted@) =~= views(entries@.take(0)));
    while k < entries.len()
        invariant
            0 <= k <= entries@.len(),
            sorted@.len() == k,
            in_order(views(sorted@)),
            views(sorted@).to_multiset() == views(entries@.take(k as int)).to_multiset(),
        decreases entries@.len() - k,
    {
        let entry = entries[k];
        let mut p: usize = sorted.len();
        while p > 0 && !entry_le(&sorted[p - 1], &entry)
            invariant
                0 <= p <= sorted@.len(),
                forall|j: int| p <= j < sorted@.len() ==> !record_le(#[trigger] sorted@[j]@, entry@),
            decreases p,
        {
            p -= 1;
        }
        let ghost before = sorted@;
        sorted.insert(p, entry);
        proof {
            let old_views = views(before);
            let new_views = views(sorted@);
            assert(new_views =~= old_views.insert(p as int, entry@));
            to_multiset_insert(old_views, p as int, entry@);
            let prefix = views(entries@.take(k as int));
            assert(views(entries@.take(k + 1)) =~= prefix.push(entry@));
            to_multiset_build(prefix, entry@);
            assert forall|i: int, j: int| 0 <= i < j < new_views.len() implies record_le(
                #[trigger] new_views[i],
                #[trigger] new_views[j],
            ) by {
                if j < p {
                    assert(new_views[i] == old_views[i] && new_views[j] == old_views[j]);
                } else if j == p {
                    assert(new_views[i] == old_views[i]);
                    if p > 0 {
                        assert(record_le(old_views[p - 1], entry@));
                        if i < p - 1 {
                            assert(record_le(old_views[i], old_views[p - 1]));
                        }
                    }
                } else if i == p {
                    assert(new_views[j] == old_views[j - 1]);
                    assert(!record_le(before[j - 1]@, entry@));
                } else if i < p {
                    assert(new_views[i] == old_views[i] && new_views[j] == old_views[j - 1]);
                } else {
                    assert(new_views[i] == old_views[i - 1] && new_views[j] == old_views[j - 1]);
                }
            }
        }
        k += 1;
    }
    assert(entries@.take(k as int) =~= entries@);
    sorted
}

/// The table of `entries`: the entries in storage order, ten bytes each.
pub fn serialize_entries(entries: Vec<GeoIPv4Entry>) -> (data: Vec<u8>)
    ensures
        data@.len() == 10 * entries@.len(),
        in_order(records(data@)),
        records(data@).to_multiset() == views(entries@).to_multiset(),
{
    let sorted = sort_entries(&entries);
    let mut data: Vec<u8> = Vec::new();
    let mut i: usize = 0;
    while i < sorted.len()
        invariant
            0 <= i <= sorted@.len(),
            data@.len() == 10 * i,
            forall|j: int| 0 <= j < i ==> #[trigger] entry_at(data@, j) == sorted@[j]@,
        decreases sorted@.len() - i,
    {
        let entry = sorted[i];
        let ghost before = data@;
        data.push(entry.from[0]);
        data.push(entry.from[1]);
        data.push(entry.from[2]);
        data.push(entry.from[3]);
        data.push(entry.to[0]);
        data.push(entry.to[1]);
        data.push(entry.to[2]);
        data.push(entry.to[3]);
        data.push(entry.country_code[0]);
        data.push(entry.country_code[1]);
        proof {
            assert(entry_at(data@, i as int).code =~= entry@.code);
            assert forall|j: int| 0 <= j < i implies #[trigger] entry_at(data@, j) == sorted@[j]@ by {
                assert(entry_at(data@, j) == entry_at(before, j));
            }
        }
        i += 1;
    }
    assert(records(data@) =~= views(sorted@));
    data
}

/// Whether `data` is a table that lookups can rely on: whole records that
/// start at ever greater addresses.
pub open spec fn is_table(data: Seq<u8>) -> bool {
    data.len() % 10 == 0 && ascending(data)
}

/// Checks that `data` is a table of whole records in ascending order.
pub fn validate_table(data: &[u8]) -> (valid: bool)
    ensures
        valid == is_table(data@),
{
    if data.len() % ENTRY_SIZE != 0 {
        return false;
    }
    let count = data.len() / ENTRY_SIZE;
    if count < 2 {
        return true;
    }
    let mut i: usize = 1;
    let mut last = read_be32(data[0], data[1], data[2], data[3]);
    while i < count
        invariant
            1 <= i <= count,
            count == entry_count(data@),
            data@.len() == 10 * count,
            data@.len() <= usize::MAX,
            last == entry_at(data@, i - 1).from,
            forall|a: int, b: int|
                0 <= a < b < i ==> (#[trigger] entry_at(data@, a)).from < (#[trigger] entry_at(
                    data@,
                    b,
                )).from,
        decreases count - i,
    {
        let at = i * ENTRY_SIZE;
        let from = read_be32(data[at], data[at + 1], data[at + 2], data[at + 3]);
        assert(from == entry_at(data@, i as int).from);
        if from <= last {
            assert(!(entry_at(data@, i - 1).from < entry_at(data@, i as int).from));
            return false;
        }
        assert forall|a: int, b: int| 0 <= a < b < i + 1 implies (#[trigger] entry_at(data@, a)).from < (
        #[trigger] entry_at(data@, b)).from by {
            if b == i && a < i - 1 {
                assert(entry_at(data@, a).from < entry_at(data@, i - 1).from);
            }
        }
        last = from;
        i += 1;
    }
    true
}

/// What a lookup in a table answers: the country found, if it is text.
pub open spec fn spec_lookup(data: Seq<u8>, ip: u32) -> Result<Option<Seq<char>>, GeoIpError> {
    match spec_find(data, ip) {
        None => Ok(None),
        Some(raw) => if valid_utf8(raw) {
            Ok(Some(decode_utf8(raw)))
        } else {
            Err(GeoIpError::InvalidCountryCode)
        },
    }
}

/// A table that has been checked: whole records that start at ever
/// greater addresses.
pub struct GeoIpTable {
    data: Vec<u8>,
}

impl GeoIpTable {
    #[verifier::type_invariant]
    spec fn data_is_table(self) -> bool {
        is_table(self.data@)
    }

    /// The bytes of the table.
    pub closed spec fn data(&self) -> Seq<u8> {
        self.data@
    }

    /// Checks `data` and keeps it, if it is a table.
    pub fn new(data: Vec<u8>) -> (table: Option<GeoIpTable>)
        ensures
            table is Some <==> is_table(data@),
            table matches Some(t) ==> t.data() == data@ && is_table(t.data()),
    {
        if validate_table(data.as_slice()) {
            Some(GeoIpTable { data })
        } else {
            None
        }
    }

    /// The bytes of the table.
    pub fn as_bytes(&self) -> (bytes: &[u8])
        ensures
            bytes@ == self.data(),
            is_table(bytes@),
    {
        proof {
            use_type_invariant(self);
        }
        self.data.as_slice()
    }

    /// Looks `ip` up: the country of the record that holds it.
    pub fn find_country_code_v4(&self, ip: u32) -> (res: Result<Option<String>, GeoIpError>)
        ensures
            is_table(self.data()),
            match (res, spec_lookup(self.data(), ip)) {
                (Ok(Some(code)), Ok(Some(text))) => code@ == text,
                (Ok(None), Ok(None)) => true,
                (Err(e), Err(f)) => e == f,
                _ => false,
            },
    {
        proof {
            use_type_invariant(self);
        }
        find_country_code_v4(ip, self.data.as_slice())
    }
}

} // verus!
