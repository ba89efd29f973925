//! The host's route table: reading its rows, and folding them into one fact
//! per interface.

use crate::subnet::{count_ones, popcount, Ipv4};
use crate::text::{
    parse_i32, parse_i32_spec, parse_u32, parse_u32_spec, same_text, split_fields, split_line,
    texts,
};
use vstd::arithmetic::power2::{lemma2_to64, pow2};
use vstd::bits::lemma_u64_shr_is_div;
use vstd::prelude::*;

verus! {

/// Flag of a row whose route is up.
pub const RTF_UP: u32 = 0x0001;

/// Flag of a row whose route goes through a gateway.
pub const RTF_GATEWAY: u32 = 0x0002;

/// Number of tab-separated fields in a row of the table.
pub const ROW_FIELDS: usize = 11;

/// One row of the route table, as the kernel prints it.
#[derive(Debug, Clone)]
pub struct Route {
    pub iface: String,
    pub destination: u32,
    pub gateway: u32,
    pub flags: u32,
    pub ref_cnt: i32,
    pub use_field: u32,
    pub metric: i32,
    pub mask: u32,
    pub mtu: i32,
    pub window: u32,
    pub irtt: u32,
}

/// What a row says, with the interface name as plain text.
pub ghost struct RouteEntry {
    pub iface: Seq<char>,
    pub destination: u32,
    pub gateway: u32,
    pub flags: u32,
    pub ref_cnt: i32,
    pub use_field: u32,
    pub metric: i32,
    pub mask: u32,
    pub mtu: i32,
    pub window: u32,
    pub irtt: u32,
}

impl View for Route {
    type V = RouteEntry;

    open spec fn view(&self) -> RouteEntry {
        RouteEntry {
            iface: self.iface@,
            destination: self.destination,
            gateway: self.gateway,
            flags: self.flags,
            ref_cnt: self.ref_cnt,
            use_field: self.use_field,
            metric: self.metric,
            mask: self.mask,
            mtu: self.mtu,
            window: self.window,
            irtt: self.irtt,
        }
    }
}

/// Why a row of the table was not taken.
#[derive(Debug, Clone, Copy, PartialEq, Eq, Structural)]
pub enum ParseError {
    /// The row does not have eleven fields.
    FieldCount,
    /// The field at this position, counted from zero, is not a number of its
    /// column's width.
    InvalidNumber { field: usize },
}

/// The gateway and subnet known of one interface. A part that no row has
/// supplied yet is `0.0.0.0`.
#[derive(Debug, Clone, Copy, PartialEq, Eq, Structural)]
pub struct RouteInfo {
    pub destination: Ipv4,
    pub gateway: Ipv4,
    pub mask: Ipv4,
}

/// An interface name with what is known of the interface.
#[derive(Debug, Clone)]
pub struct RouteRecord {
    pub iface: String,
    pub info: RouteInfo,
}

/// What is known of each interface, by interface name.
pub struct RouteInfoMap {
    records: Vec<RouteRecord>,
}

/// The rows as plain values.
pub open spec fn entries(routes: Seq<Route>) -> Seq<RouteEntry> {
    Seq::new(routes.len(), |i: int| routes[i]@)
}

impl RouteEntry {
    pub open spec fn is_up(self) -> bool {
        self.flags & RTF_UP == RTF_UP
    }

    /// The row names the gateway of its interface.
    pub open spec fn supplies_gateway(self) -> bool {
        self.gateway != 0 && self.flags & RTF_GATEWAY == RTF_GATEWAY
    }

    /// The destination has no bit at or above the position given by the number
    /// of one-bits of the mask.
    pub open spec fn is_canonical(self) -> bool {
        self.destination as nat / pow2(popcount(self.mask as nat)) == 0
    }
}

/// What the fields of one row amount to: the row, or the first reason why it is
/// not one.
pub open spec fn parse_fields(fields: Seq<Seq<char>>) -> Result<RouteEntry, ParseError> {
    if fields.len() != ROW_FIELDS {
        Err(ParseError::FieldCount)
    } else if parse_u32_spec(fields[1]) is None {
        Err(ParseError::InvalidNumber { field: 1 })
    } else if parse_u32_spec(fields[2]) is None {
        Err(ParseError::InvalidNumber { field: 2 })
    } else if parse_u32_spec(fields[3]) is None {
        Err(ParseError::InvalidNumber { field: 3 })
    } else if parse_i32_spec(fields[4]) is None {
        Err(ParseError::InvalidNumber { field: 4 })
    } else if parse_u32_spec(fields[5]) is None {
        Err(ParseError::InvalidNumber { field: 5 })
    } else if parse_i32_spec(fields[6]) is None {
        Err(ParseError::InvalidNumber { field: 6 })
    } else if parse_u32_spec(fields[7]) is None {
        Err(ParseError::InvalidNumber { field: 7 })
    } else if parse_i32_spec(fields[8]) is None {
        Err(ParseError::InvalidNumber { field: 8 })
    } else if parse_u32_spec(fields[9]) is None {
        Err(ParseError::InvalidNumber { field: 9 })
    } else if parse_u32_spec(fields[10]) is None {
        Err(ParseError::InvalidNumber { field: 10 })
    } else {
        Ok(
            RouteEntry {
                iface: fields[0],
                destination: parse_u32_spec(fields[1])->0,
                gateway: parse_u32_spec(fields[2])->0,
                flags: parse_u32_spec(fields[3])->0,
                ref_cnt: parse_i32_spec(fields[4])->0,
                use_field: parse_u32_spec(fields[5])->0,
                metric: parse_i32_spec(fields[6])->0,
                mask: parse_u32_spec(fields[7])->0,
                mtu: parse_i32_spec(fields[8])->0,
                window: parse_u32_spec(fields[9])->0,
                irtt: parse_u32_spec(fields[10])->0,
            },
        )
    }
}

/// The row that a line of the table holds, if it holds one.
pub open spec fn parse_row(line: Seq<char>) -> Option<RouteEntry> {
    match parse_fields(split_fields(line, '\t')) {
        Ok(entry) => Some(entry),
        Err(_) => None,
    }
}

/// The rows that the lines hold, in the order of the lines; a line that holds
/// no row is passed over.
pub open spec fn parse_rows(lines: Seq<Seq<char>>) -> Seq<RouteEntry>
    decreases lines.len(),
{
    if lines.len() == 0 {
        Seq::empty()
    } else {
        match parse_row(lines.last()) {
            Some(entry) => parse_rows(lines.drop_last()).push(entry),
            None => parse_rows(lines.drop_last()),
        }
    }
}

/// The rows of a table: those of its lines after the first, which is a header.
pub open spec fn parse_table(lines: Seq<Seq<char>>) -> Seq<RouteEntry> {
    if lines.len() == 0 {
        Seq::empty()
    } else {
        parse_rows(lines.drop_first())
    }
}

/// What is known of an interface in `known`: its record, or nothing yet.
pub open spec fn lookup(known: Map<Seq<char>, RouteInfo>, iface: Seq<char>) -> RouteInfo {
    if known.dom().contains(iface) {
        known[iface]
    } else {
        RouteInfo::unknown()
    }
}

/// Folds one row into what is known.
///
/// A row that is not up changes nothing. A row that is up and names a gateway
/// sets the gateway of its interface. Any other row that is up sets the
/// destination and the mask of its interface, provided it is canonical, and
/// changes nothing otherwise.
pub open spec fn fold_route(known: Map<Seq<char>, RouteInfo>, row: RouteEntry) -> Map<
    Seq<char>,
    RouteInfo,
> {
    let old_info = lookup(known, row.iface);
    if !row.is_up() {
        known
    } else if row.supplies_gateway() {
        known.insert(
            row.iface,
            RouteInfo { gateway: Ipv4::of_table_value(row.gateway), ..old_info },
        )
    } else if row.is_canonical() {
        known.insert(
            row.iface,
            RouteInfo {
                destination: Ipv4::of_table_value(row.destination),
                mask: Ipv4::of_table_value(row.mask),
                ..old_info
            },
        )
    } else {
        known
    }
}

/// Folds the rows into `known`, first row first.
pub open spec fn fold_routes(known: Map<Seq<char>, RouteInfo>, rows: Seq<RouteEntry>) -> Map<
    Seq<char>,
    RouteInfo,
>
    decreases rows.len(),
{
    if rows.len() == 0 {
        known
    } else {
        fold_route(fold_routes(known, rows.drop_last()), rows.last())
    }
}

/// Every record of `known` is aligned.
pub open spec fn all_aligned(known: Map<Seq<char>, RouteInfo>) -> bool {
    forall|iface: Seq<char>| known.dom().contains(iface) ==> (#[trigger] known[iface]).aligned()
}

/// The part of `known` that is complete.
pub open spec fn complete_part(known: Map<Seq<char>, RouteInfo>) -> Map<Seq<char>, RouteInfo> {
    Map::new(
        |iface: Seq<char>| known.dom().contains(iface) && known[iface].is_full_spec(),
        |iface: Seq<char>| known[iface],
    )
}

/// No two records carry the same interface name.
pub open spec fn distinct_names(records: Seq<RouteRecord>) -> bool {
    forall|i: int, j: int|
        0 <= i < records.len() && 0 <= j < records.len() && (#[trigger] records[i]).iface@ == (
        #[trigger] records[j]).iface@ ==> i == j
}

/// Whether some record carries the name `iface`.
pub open spec fn names(records: Seq<RouteRecord>, iface: Seq<char>) -> bool {
    exists|i: int| 0 <= i < records.len() && (#[trigger] records[i]).iface@ == iface
}

/// Position of the record that carries the name `iface`.
pub open spec fn position(records: Seq<RouteRecord>, iface: Seq<char>) -> int {
    choose|i: int| 0 <= i < records.len() && (#[trigger] records[i]).iface@ == iface
}

/// The records as a map from interface name to what is known.
pub open spec fn record_map(records: Seq<RouteRecord>) -> Map<Seq<char>, RouteInfo> {
    Map::new(
        |iface: Seq<char>| names(records, iface),
        |iface: Seq<char>| records[position(records, iface)].info,
    )
}

/// Folding a row keeps every record aligned.
pub proof fn lemma_fold_route_keeps_aligned(known: Map<Seq<char>, RouteInfo>, row: RouteEntry)
    requires
        all_aligned(known),
    ensures
        all_aligned(fold_route(known, row)),
{
    crate::subnet::lemma_of_value_round_trip(row.destination);
    crate::subnet::lemma_of_value_round_trip(row.mask);
    lemma2_to64();
    assert(RouteInfo::unknown().aligned()) by {
        assert(popcount(0) == 0);
    }
    assert(lookup(known, row.iface).aligned());
}

/// Whatever rows are folded, starting from nothing, the destination of each
/// record has no bit at or above the position given by the number of one-bits
/// of the record's mask. This holds of the complete records in particular.
pub proof fn lemma_fold_routes_aligned(rows: Seq<RouteEntry>)
    ensures
        all_aligned(fold_routes(Map::empty(), rows)),
        all_aligned(complete_part(fold_routes(Map::empty(), rows))),
    decreases rows.len(),
{
    if rows.len() > 0 {
        lemma_fold_routes_aligned(rows.drop_last());
        lemma_fold_route_keeps_aligned(fold_routes(Map::empty(), rows.drop_last()), rows.last());
    }
}

/// Reading keeps the order of the lines, and takes or passes over each line for
/// itself: the rows of two runs of lines, one after the other, are the rows of
/// the first followed by the rows of the second.
pub proof fn lemma_parse_rows_concat(first: Seq<Seq<char>>, second: Seq<Seq<char>>)
    ensures
        parse_rows(first + second) == parse_rows(first) + parse_rows(second),
    decreases second.len(),
{
    if second.len() == 0 {
        assert(first + second =~= first);
        assert(parse_rows(first) + parse_rows(second) =~= parse_rows(first));
    } else {
        lemma_parse_rows_concat(first, second.drop_last());
        assert((first + second).drop_last() =~= first + second.drop_last());
        assert((first + second).last() == second.last());
        match parse_row(second.last()) {
            Some(entry) => {
                assert(parse_rows(first + second) =~= parse_rows(first) + parse_rows(second));
            },
            None => {},
        }
    }
}

/// A line with other than eleven fields gives no row; a line whose eleven
/// fields all read as numbers of their columns' widths gives one.
pub proof fn lemma_row_taken_iff_well_formed(line: Seq<char>)
    ensures
        split_fields(line, '\t').len() < ROW_FIELDS ==> parse_row(line) is None,
        split_fields(line, '\t').len() > ROW_FIELDS ==> parse_row(line) is None,
        parse_row(line) is Some <==> parse_fields(split_fields(line, '\t')) is Ok,
        parse_rows(seq![line]) == match parse_row(line) {
            Some(entry) => seq![entry],
            None => Seq::empty(),
        },
{
    let one = seq![line];
    assert(one.drop_last() =~= Seq::<Seq<char>>::empty());
    assert(parse_rows(one.drop_last()) =~= Seq::empty());
    match parse_row(line) {
        Some(entry) => {
            assert(parse_rows(one) =~= seq![entry]);
        },
        None => {},
    }
}

/// Two readings of the same lines give the same rows.
pub proof fn lemma_reading_is_repeatable(lines: Seq<String>, first: Seq<Route>, second: Seq<Route>)
    requires
        entries(first) == parse_table(texts(lines)),
        entries(second) == parse_table(texts(lines)),
    ensures
        entries(first) == entries(second),
        first.len() == second.len(),
        forall|i: int| 0 <= i < first.len() ==> first[i]@ == second[i]@,
{
    assert(entries(first).len() == first.len());
    assert(entries(second).len() == second.len());
    assert forall|i: int| 0 <= i < first.len() implies first[i]@ == second[i]@ by {
        assert(entries(first)[i] == first[i]@);
        assert(entries(second)[i] == second[i]@);
    }
}

impl RouteInfo {
    /// Nothing known: every part is `0.0.0.0`.
    pub open spec fn unknown() -> RouteInfo {
        RouteInfo {
            destination: Ipv4::unspecified_spec(),
            gateway: Ipv4::unspecified_spec(),
            mask: Ipv4::unspecified_spec(),
        }
    }

    pub open spec fn is_full_spec(&self) -> bool {
        self.gateway != Ipv4::unspecified_spec() && self.mask != Ipv4::unspecified_spec()
    }

    /// The destination, read as the route table prints it, has no bit at or
    /// above the position given by the number of one-bits of the mask.
    pub open spec fn aligned(self) -> bool {
        self.destination.table_value() / pow2(popcount(self.mask.table_value())) == 0
    }

    /// Whether the record is complete: both its gateway and its mask are known.
    /// The destination of a complete record may well be `0.0.0.0`.
    #[verifier::when_used_as_spec(is_full_spec)]
    pub fn is_full(&self) -> (full: bool)
        ensures
            full == self.is_full_spec(),
    {
        !self.gateway.is_unspecified() && !self.mask.is_unspecified()
    }
}

impl Default for RouteInfo {
    fn default() -> (info: RouteInfo)
        ensures
            info == RouteInfo::unknown(),
    {
        RouteInfo {
            destination: Ipv4::unspecified(),
            gateway: Ipv4::unspecified(),
            mask: Ipv4::unspecified(),
        }
    }
}

impl View for RouteInfoMap {
    type V = Map<Seq<char>, RouteInfo>;

    closed spec fn view(&self) -> Map<Seq<char>, RouteInfo> {
        record_map(self.records@)
    }
}

impl RouteInfoMap {
    #[verifier::type_invariant]
    spec fn well_formed(&self) -> bool {
        &&& distinct_names(self.records@)
        &&& forall|i: int| 0 <= i < self.records@.len() ==> (#[trigger] self.records@[i]).info.aligned()
    }

    /// A map that knows of no interface.
    pub fn new() -> (map: RouteInfoMap)
        ensures
            map@ == Map::<Seq<char>, RouteInfo>::empty(),
    {
        let map = RouteInfoMap { records: Vec::new() };
        assert(map@ =~= Map::<Seq<char>, RouteInfo>::empty());
        map
    }

    /// Number of interfaces known.
    pub fn len(&self) -> (n: usize)
        ensures
            n == self@.dom().len(),
            self@.dom().finite(),
    {
        proof {
            use_type_invariant(self);
            lemma_record_map_len(self.records@);
        }
        self.records.len()
    }

    fn find(&self, iface: &str) -> (found: Option<usize>)
        ensures
            match found {
                Some(i) => i < self.records@.len() && self.records@[i as int].iface@ == iface@,
                None => !names(self.records@, iface@),
            },
    {
        let mut i: usize = 0;
        while i < self.records.len()
            invariant
                i <= self.records@.len(),
                forall|j: int| 0 <= j < i ==> (#[trigger] self.records@[j]).iface@ != iface@,
            decreases self.records@.len() - i,
        {
            if same_text(self.records[i].iface.as_str(), iface) {
                return Some(i);
            }
            i = i + 1;
        }
        None
    }

    /// What is known of the interface `iface`, if anything.
    pub fn get(&self, iface: &str) -> (info: Option<RouteInfo>)
        ensures
            info == if self@.dom().contains(iface@) {
                Some(self@[iface@])
            } else {
                None
            },
            info matches Some(known) ==> known.aligned(),
    {
        proof {
            use_type_invariant(self);
        }
        match self.find(iface) {
            Some(i) => {
                assert(names(self.records@, iface@));
                Some(self.records[i].info)
            },
            None => None,
        }
    }

    /// Records `info` as what is known of `iface`, in place of what was known.
    fn insert(&mut self, iface: String, info: RouteInfo)
        requires
            info.aligned(),
        ensures
            final(self)@ == old(self)@.insert(iface@, info),
    {
        proof {
            use_type_invariant(&*self);
        }
        let ghost before = self.records@;
        let found = self.find(iface.as_str());
        let mut taken = RouteInfoMap { records: Vec::new() };
        core::mem::swap(self, &mut taken);
        let mut records = taken.records;
        match found {
            Some(i) => {
                let record = RouteRecord { iface, info };
                records.set(i, record);
                proof {
                    let after = records@;
                    assert forall|k: Seq<char>| names(after, k) == names(before, k) by {
                        if names(before, k) {
                            assert(after[position(before, k)].iface@ == k);
                        }
                        if names(after, k) {
                            assert(before[position(after, k)].iface@ == k);
                        }
                    }
                    assert forall|k: Seq<char>| names(after, k) implies record_map(after)[k] == (
                    if k == record.iface@ {
                        info
                    } else {
                        record_map(before)[k]
                    }) by {
                        let p = position(after, k);
                        let q = position(before, k);
                        assert(before[p].iface@ == k);
                        assert(p == q);
                    }
                    assert(names(before, record.iface@));
                    assert(record_map(after) =~= record_map(before).insert(record.iface@, info));
                }
            },
            None => {
                let record = RouteRecord { iface, info };
                records.push(record);
                proof {
                    let after = records@;
                    assert(after[before.len() as int].iface@ == record.iface@);
                    assert forall|k: Seq<char>| names(after, k) == (k == record.iface@ || names(
                        before,
                        k,
                    )) by {
                        if names(before, k) {
                            assert(after[position(before, k)].iface@ == k);
                        }
                        if names(after, k) && k != record.iface@ {
                            assert(before[position(after, k)].iface@ == k);
                        }
                    }
                    assert forall|k: Seq<char>| names(after, k) implies record_map(after)[k] == (
                    if k == record.iface@ {
                        info
                    } else {
                        record_map(before)[k]
                    }) by {
                        let p = position(after, k);
                        if k != record.iface@ {
                            let q = position(before, k);
                            assert(before[p].iface@ == k);
                            assert(after[q].iface@ == k);
                            assert(p == q);
                        } else {
                            assert(p == before.len());
                        }
                    }
                    assert(record_map(after) =~= record_map(before).insert(record.iface@, info));
                }
            },
        }
        *self = RouteInfoMap { records };
    }

    /// The records, one for each interface known.
    pub fn records(&self) -> (all: &Vec<RouteRecord>)
        ensures
            record_map(all@) == self@,
            distinct_names(all@),
            forall|i: int| 0 <= i < all@.len() ==> (#[trigger] all@[i]).info.aligned(),
    {
        proof {
            use_type_invariant(self);
        }
        &self.records
    }

    /// The complete records: those whose gateway and mask are both known.
    pub fn complete(&self) -> (full: Vec<RouteRecord>)
        ensures
            record_map(full@) == complete_part(self@),
            distinct_names(full@),
            forall|i: int|
                0 <= i < full@.len() ==> (#[trigger] full@[i]).info.is_full_spec()
                    && full@[i].info.aligned(),
    {
        proof {
            use_type_invariant(self);
        }
        let mut full: Vec<RouteRecord> = Vec::new();
        let mut i: usize = 0;
        while i < self.records.len()
            invariant
                i <= self.records@.len(),
                distinct_names(self.records@),
                forall|j: int|
                    0 <= j < self.records@.len() ==> (#[trigger] self.records@[j]).info.aligned(),
                forall|j: int|
                    0 <= j < full@.len() ==> (#[trigger] full@[j]).info.is_full_spec()
                        && full@[j].info.aligned(),
                forall|j: int|
                    0 <= j < full@.len() ==> exists|k: int|
                        0 <= k < i && (#[trigger] self.records@[k]).iface@ == full@[j].iface@
                            && self.records@[k].info == (#[trigger] full@[j]).info,
                forall|k: int|
                    0 <= k < i && (#[trigger] self.records@[k]).info.is_full_spec() ==> exists|
                        j: int,
                    |
                        0 <= j < full@.len() && (#[trigger] full@[j]).iface@
                            == self.records@[k].iface@,
                distinct_names(full@),
            decreases self.records@.len() - i,
        {
            if self.records[i].info.is_full() {
                let ghost before = full@;
                let record = RouteRecord {
                    iface: self.records[i].iface.clone(),
                    info: self.records[i].info,
                };
                full.push(record);
                proof {
                    assert(full@[before.len() as int] == record);
                    assert forall|j: int| 0 <= j < full@.len() implies exists|k: int|
                        0 <= k < i + 1 && (#[trigger] self.records@[k]).iface@ == full@[j].iface@
                            && self.records@[k].info == (#[trigger] full@[j]).info by {
                        if j < before.len() {
                            assert(full@[j] == before[j]);
                            let k = choose|k: int|
                                0 <= k < i && (#[trigger] self.records@[k]).iface@
                                    == before[j].iface@ && self.records@[k].info == before[j].info;
                            assert(self.records@[k].iface@ == full@[j].iface@);
                        } else {
                            assert(self.records@[i as int].iface@ == full@[j].iface@);
                        }
                    }
                    assert forall|k: int|
                        0 <= k < i + 1 && (#[trigger] self.records@[k]).info.is_full_spec()
                        implies exists|j: int|
                        0 <= j < full@.len() && (#[trigger] full@[j]).iface@
                            == self.records@[k].iface@ by {
                        if k < i {
                            let j = choose|j: int|
                                0 <= j < before.len() && (#[trigger] before[j]).iface@
                                    == self.records@[k].iface@;
                            assert(full@[j] == before[j]);
                        } else {
                            assert(full@[before.len() as int].iface@ == self.records@[k].iface@);
                        }
                    }
                    assert forall|a: int, b: int|
                        0 <= a < full@.len() && 0 <= b < full@.len() && (#[trigger] full@[a]).iface@
                            == (#[trigger] full@[b]).iface@ implies a == b by {
                        if a < before.len() && b < before.len() {
                            assert(before[a].iface@ == before[b].iface@);
                        } else if a < before.len() {
                            let k = choose|k: int|
                                0 <= k < i && (#[trigger] self.records@[k]).iface@
                                    == before[a].iface@ && self.records@[k].info == before[a].info;
                            assert(self.records@[k].iface@ == self.records@[i as int].iface@);
                        } else if b < before.len() {
                            let k = choose|k: int|
                                0 <= k < i && (#[trigger] self.records@[k]).iface@
                                    == before[b].iface@ && self.records@[k].info == before[b].info;
                            assert(self.records@[k].iface@ == self.records@[i as int].iface@);
                        }
                    }
                }
            }
            i = i + 1;
        }
        proof {
            let all = self.records@;
            assert forall|k: Seq<char>| names(full@, k) == complete_part(record_map(all)).dom().contains(
                k,
            ) by {
                if names(full@, k) {
                    let j = position(full@, k);
                    let r = choose|r: int|
                        0 <= r < i && (#[trigger] all[r]).iface@ == full@[j].iface@ && all[r].info
                            == full@[j].info;
                    assert(names(all, k));
                    assert(position(all, k) == r);
                }
                if complete_part(record_map(all)).dom().contains(k) {
                    let r = position(all, k);
                    assert(all[r].info.is_full_spec());
                    let j = choose|j: int|
                        0 <= j < full@.len() && (#[trigger] full@[j]).iface@ == all[r].iface@;
                    assert(full@[j].iface@ == k);
                }
            }
            assert forall|k: Seq<char>| names(full@, k) implies record_map(full@)[k]
                == complete_part(record_map(all))[k] by {
                let j = position(full@, k);
                let r = choose|r: int|
                    0 <= r < i && (#[trigger] all[r]).iface@ == full@[j].iface@ && all[r].info
                        == full@[j].info;
                assert(names(all, k));
                assert(position(all, k) == r);
            }
            assert(record_map(full@) =~= complete_part(record_map(all)));
        }
        full
    }
}

/// A sequence of records without a repeated name has as many names as records.
proof fn lemma_record_map_len(records: Seq<RouteRecord>)
    requires
        distinct_names(records),
    ensures
        record_map(records).dom().finite(),
        record_map(records).dom().len() == records.len(),
    decreases records.len(),
{
    if records.len() == 0 {
        assert(record_map(records).dom() =~= Set::<Seq<char>>::empty());
    } else {
        let init = records.drop_last();
        let name = records.last().iface@;
        assert forall|i: int, j: int|
            0 <= i < init.len() && 0 <= j < init.len() && (#[trigger] init[i]).iface@ == (
            #[trigger] init[j]).iface@ implies i == j by {
            assert(records[i].iface@ == records[j].iface@);
        }
        lemma_record_map_len(init);
        assert(!names(init, name)) by {
            if names(init, name) {
                let i = position(init, name);
                assert(records[i].iface@ == records[records.len() - 1].iface@);
            }
        }
        assert forall|k: Seq<char>| names(records, k) == (k == name || names(init, k)) by {
            if names(init, k) {
                assert(records[position(init, k)].iface@ == k);
            }
            if names(records, k) && k != name {
                assert(init[position(records, k)].iface@ == k);
            }
            if k == name {
                assert(records[records.len() - 1].iface@ == k);
            }
        }
        assert(record_map(records).dom() =~= record_map(init).dom().insert(name));
    }
}

impl Route {
    /// Reads the rows of a route table out of its lines. The first line is a
    /// header and is not read; a line that does not hold a row is passed over.
    pub fn new(lines: &Vec<String>) -> (routes: Vec<Route>)
        ensures
            entries(routes@) == parse_table(texts(lines@)),
    {
        Route::read_route(lines)
    }

    /// Reads the rows of a route table out of its lines, as `new` does.
    pub fn read_route(lines: &Vec<String>) -> (routes: Vec<Route>)
        ensures
            entries(routes@) == parse_table(texts(lines@)),
    {
        let mut routes: Vec<Route> = Vec::new();
        if lines.len() == 0 {
            assert(entries(routes@) =~= Seq::empty());
            return routes;
        }
        let ghost rows = texts(lines@).drop_first();
        let mut i: usize = 1;
        assert(rows.take(0) =~= Seq::empty());
        assert(entries(routes@) =~= Seq::empty());
        while i < lines.len()
            invariant
                1 <= i <= lines.len(),
                rows == texts(lines@).drop_first(),
                entries(routes@) == parse_rows(rows.take(i - 1)),
            decreases lines.len() - i,
        {
            let ghost taken = entries(routes@);
            assert(rows.take(i as int).drop_last() =~= rows.take(i - 1));
            assert(rows.take(i as int).last() == lines@[i as int]@);
            let fields = split_line(lines[i].as_str(), '\t');
            match Route::vec_to_route(fields) {
                Ok(route) => {
                    routes.push(route);
                    assert(entries(routes@) =~= taken.push(route@));
                },
                Err(_) => {},
            }
            i = i + 1;
        }
        assert(rows.take(i - 1) =~= rows);
        routes
    }

    /// Reads one row out of its fields.
    pub fn vec_to_route(v: Vec<String>) -> (row: Result<Route, ParseError>)
        ensures
            match row {
                Ok(route) => parse_fields(texts(v@)) == Ok::<RouteEntry, ParseError>(route@),
                Err(e) => parse_fields(texts(v@)) == Err::<RouteEntry, ParseError>(e),
            },
    {
        if v.len() != ROW_FIELDS {
            return Err(ParseError::FieldCount);
        }
        let ghost fields = texts(v@);
        assert(forall|i: int| 0 <= i < 11 ==> fields[i] == v@[i]@);
        let destination: u32 = match parse_u32(v[1].as_str()) {
            Some(n) => n,
            None => { return Err(ParseError::InvalidNumber { field: 1 }); },
        };
        let gateway: u32 = match parse_u32(v[2].as_str()) {
            Some(n) => n,
            None => { return Err(ParseError::InvalidNumber { field: 2 }); },
        };
        let flags: u32 = match parse_u32(v[3].as_str()) {
            Some(n) => n,
            None => { return Err(ParseError::InvalidNumber { field: 3 }); },
        };
        let ref_cnt: i32 = match parse_i32(v[4].as_str()) {
            Some(n) => n,
            None => { return Err(ParseError::InvalidNumber { field: 4 }); },
        };
        let use_field: u32 = match parse_u32(v[5].as_str()) {
            Some(n) => n,
            None => { return Err(ParseError::InvalidNumber { field: 5 }); },
        };
        let metric: i32 = match parse_i32(v[6].as_str()) {
            Some(n) => n,
            None => { return Err(ParseError::InvalidNumber { field: 6 }); },
        };
        let mask: u32 = match parse_u32(v[7].as_str()) {
            Some(n) => n,
            None => { return Err(ParseError::InvalidNumber { field: 7 }); },
        };
        let mtu: i32 = match parse_i32(v[8].as_str()) {
            Some(n) => n,
            None => { return Err(ParseError::InvalidNumber { field: 8 }); },
        };
        let window: u32 = match parse_u32(v[9].as_str()) {
            Some(n) => n,
            None => { return Err(ParseError::InvalidNumber { field: 9 }); },
        };
        let irtt: u32 = match parse_u32(v[10].as_str()) {
            Some(n) => n,
            None => { return Err(ParseError::InvalidNumber { field: 10 }); },
        };
        let iface: String = v[0].clone();
        Ok(
            Route {
                iface,
                destination,
                gateway,
                flags,
                ref_cnt,
                use_field,
                metric,
                mask,
                mtu,
                window,
                irtt,
            },
        )
    }

    /// Folds this row into what is known of its interface.
    pub fn parse_network(&self, map: &mut RouteInfoMap)
        ensures
            final(map)@ == fold_route(old(map)@, self@),
    {
        if self.flags & RTF_UP == RTF_UP {
            if self.gateway != 0 && self.flags & RTF_GATEWAY == RTF_GATEWAY {
                let mut route_info: RouteInfo = match map.get(self.iface.as_str()) {
                    Some(known) => known,
                    None => RouteInfo::default(),
                };
                proof {
                    lemma2_to64();
                    assert(popcount(0) == 0);
                }
                route_info.gateway = Ipv4::from_table_value(self.gateway);
                map.insert(self.iface.clone(), route_info);
            } else {
                let segment: u8 = count_ones(self.mask);
                proof {
                    lemma_u64_shr_is_div(self.destination as u64, segment as u64);
                }
                if (self.destination as u64) >> (segment as u64) == 0 {
                    let mut route_info: RouteInfo = match map.get(self.iface.as_str()) {
                        Some(known) => known,
                        None => RouteInfo::default(),
                    };
                    route_info.destination = Ipv4::from_table_value(self.destination);
                    route_info.mask = Ipv4::from_table_value(self.mask);
                    map.insert(self.iface.clone(), route_info);
                }
            }
        }
    }
}

/// Folds the rows, first row first, into one record per interface.
pub fn aggregate(routes: &Vec<Route>) -> (map: RouteInfoMap)
    ensures
        map@ == fold_routes(Map::empty(), entries(routes@)),
        all_aligned(map@),
{
    let mut map = RouteInfoMap::new();
    let mut i: usize = 0;
    assert(entries(routes@).take(0) =~= Seq::empty());
    while i < routes.len()
        invariant
            i <= routes.len(),
            map@ == fold_routes(Map::empty(), entries(routes@).take(i as int)),
        decreases routes.len() - i,
    {
        assert(entries(routes@).take(i + 1).drop_last() =~= entries(routes@).take(i as int));
        assert(entries(routes@).take(i + 1).last() == routes@[i as int]@);
        routes[i].parse_network(&mut map);
        i = i + 1;
    }
    assert(entries(routes@).take(i as int) =~= entries(routes@));
    proof {
        lemma_fold_routes_aligned(entries(routes@));
    }
    map
}

} // verus!
