//! The Unicode mapping table that may follow a font's bitmap.
//!
//! The table is one left-to-right scan. Code units pile up in a pending
//! buffer; a sequence-start marker or an entry separator decodes that buffer
//! and files the characters in the current entry, and a separator closes the
//! entry. A run of units after the last separator is dropped.
use vstd::prelude::*;
use vstd::utf8::{decode_utf8, valid_utf8};

verus! {

/// The characters that one glyph stands for.
pub struct TableEntry {
    /// What the glyph directly represents (normally one character).
    pub represented: Vec<char>,
    /// Every combining sequence that aliases the glyph, concatenated.
    pub sequences: Vec<char>,
}

pub struct EntryModel {
    pub represented: Seq<char>,
    pub sequences: Seq<char>,
}

impl View for TableEntry {
    type V = EntryModel;

    open spec fn view(&self) -> EntryModel {
        EntryModel { represented: self.represented@, sequences: self.sequences@ }
    }
}

pub open spec fn empty_entry() -> EntryModel {
    EntryModel { represented: seq![], sequences: seq![] }
}

pub open spec fn entries_view(entries: Seq<TableEntry>) -> Seq<EntryModel> {
    entries.map_values(|e: TableEntry| e@)
}

/// The two in-band markers of a table.
#[derive(Clone, Copy, PartialEq, Eq, Structural)]
pub enum Marker {
    /// Closes the current entry.
    Separator,
    /// Begins a combining sequence of the current entry.
    StartSequence,
}

/// Where the scan files the next decoded buffer.
#[derive(Clone, Copy, PartialEq, Eq, Structural)]
pub enum ScanState {
    /// The buffer becomes the entry's represented characters.
    Represented,
    /// The buffer is appended to the entry's sequences.
    Sequence,
}

/// What becomes of a buffer that is not valid text.
#[derive(Clone, Copy, Debug, PartialEq, Eq, Structural)]
pub enum DecodePolicy {
    /// The whole table is refused.
    Abort,
    /// The entry that holds the buffer is left out of the table.
    SkipEntry,
}

pub struct ScanModel<U> {
    pub entries: Seq<EntryModel>,
    pub current: EntryModel,
    pub state: ScanState,
    pub pending: Seq<U>,
    /// A buffer of the current entry failed to decode.
    pub damaged: bool,
}

pub open spec fn initial_scan<U>() -> ScanModel<U> {
    ScanModel {
        entries: seq![],
        current: empty_entry(),
        state: ScanState::Represented,
        pending: seq![],
        damaged: false,
    }
}

/// A code unit that is no marker joins the pending buffer.
pub open spec fn push_unit<U>(s: ScanModel<U>, u: U) -> ScanModel<U> {
    ScanModel { pending: s.pending.push(u), ..s }
}

/// A marker files `chars`, the decoded pending buffer, and empties the
/// buffer; a separator closes the entry, which is kept unless damaged.
pub open spec fn close_buffer<U>(s: ScanModel<U>, chars: Seq<char>, m: Marker) -> ScanModel<U> {
    let cur = match s.state {
        ScanState::Represented => EntryModel { represented: chars, sequences: s.current.sequences },
        ScanState::Sequence => EntryModel {
            represented: s.current.represented,
            sequences: s.current.sequences + chars,
        },
    };
    match m {
        Marker::Separator => ScanModel {
            entries: if s.damaged {
                s.entries
            } else {
                s.entries.push(cur)
            },
            current: empty_entry(),
            state: ScanState::Represented,
            pending: seq![],
            damaged: false,
        },
        Marker::StartSequence => ScanModel {
            entries: s.entries,
            current: cur,
            state: ScanState::Sequence,
            pending: seq![],
            damaged: s.damaged,
        },
    }
}

/// A marker whose buffer is not valid text damages the current entry; the
/// buffer is dropped, and a separator drops the entry.
pub open spec fn discard_buffer<U>(s: ScanModel<U>, m: Marker) -> ScanModel<U> {
    match m {
        Marker::Separator => ScanModel {
            entries: s.entries,
            current: empty_entry(),
            state: ScanState::Represented,
            pending: seq![],
            damaged: false,
        },
        Marker::StartSequence => ScanModel {
            state: ScanState::Sequence,
            pending: seq![],
            damaged: true,
            ..s
        },
    }
}

/// One step of the scan; `decoded` is what the pending buffer decodes to,
/// `None` where it is not valid text.
pub open spec fn feed<U>(
    s: ScanModel<U>,
    u: U,
    m: Option<Marker>,
    decoded: Option<Seq<char>>,
    policy: DecodePolicy,
) -> Option<ScanModel<U>> {
    match m {
        None => Some(push_unit(s, u)),
        Some(mk) => match decoded {
            Some(chars) => Some(close_buffer(s, chars, mk)),
            None => match policy {
                DecodePolicy::Abort => None,
                DecodePolicy::SkipEntry => Some(discard_buffer(s, mk)),
            },
        },
    }
}

/// The scan over `units`, or `None` where a buffer fails to decode and the
/// policy aborts.
pub open spec fn scan<U>(
    units: Seq<U>,
    marker: spec_fn(U) -> Option<Marker>,
    decode: spec_fn(Seq<U>) -> Option<Seq<char>>,
    policy: DecodePolicy,
) -> Option<ScanModel<U>>
    decreases units.len(),
{
    if units.len() == 0 {
        Some(initial_scan())
    } else {
        match scan(units.drop_last(), marker, decode, policy) {
            None => None,
            Some(s) => feed(s, units.last(), marker(units.last()), decode(s.pending), policy),
        }
    }
}

proof fn lemma_scan_stays_failed<U>(
    units: Seq<U>,
    k: int,
    marker: spec_fn(U) -> Option<Marker>,
    decode: spec_fn(Seq<U>) -> Option<Seq<char>>,
    policy: DecodePolicy,
)
    requires
        0 <= k <= units.len(),
        scan(units.take(k), marker, decode, policy) is None,
    ensures
        scan(units, marker, decode, policy) is None,
    decreases units.len() - k,
{
    if k < units.len() {
        assert(units.take(k + 1).drop_last() =~= units.take(k));
        lemma_scan_stays_failed(units, k + 1, marker, decode, policy);
    } else {
        assert(units.take(k) =~= units);
    }
}

/// Under the skipping policy a scan never fails.
pub proof fn lemma_skipping_scan_succeeds<U>(
    units: Seq<U>,
    marker: spec_fn(U) -> Option<Marker>,
    decode: spec_fn(Seq<U>) -> Option<Seq<char>>,
)
    ensures
        scan(units, marker, decode, DecodePolicy::SkipEntry) is Some,
    decreases units.len(),
{
    if units.len() > 0 {
        lemma_skipping_scan_succeeds(units.drop_last(), marker, decode);
    }
}

/// The accumulating state of a table scan over code units of type `U`.
pub struct TableScanner<U> {
    entries: Vec<TableEntry>,
    current: TableEntry,
    state: ScanState,
    pending: Vec<U>,
    damaged: bool,
}

impl<U> View for TableScanner<U> {
    type V = ScanModel<U>;

    closed spec fn view(&self) -> ScanModel<U> {
        ScanModel {
            entries: entries_view(self.entries@),
            current: self.current@,
            state: self.state,
            pending: self.pending@,
            damaged: self.damaged,
        }
    }
}

impl<U> TableScanner<U> {
    pub fn new() -> (r: Self)
        ensures
            r@ == initial_scan::<U>(),
    {
        let r = TableScanner {
            entries: Vec::new(),
            current: TableEntry { represented: Vec::new(), sequences: Vec::new() },
            state: ScanState::Represented,
            pending: Vec::new(),
            damaged: false,
        };
        assert(r@.entries =~= seq![]);
        assert(r@.current.represented =~= seq![]);
        r
    }

    /// The code units that the next marker will decode.
    pub fn pending(&self) -> (r: &Vec<U>)
        ensures
            r@ == self@.pending,
    {
        &self.pending
    }

    /// Adds a code unit that is no marker to the pending buffer.
    pub fn push(&mut self, u: U)
        ensures
            final(self)@ == push_unit(old(self)@, u),
    {
        self.pending.push(u);
    }

    /// Handles a marker, given the characters that the pending buffer decodes to.
    pub fn close(&mut self, chars: Vec<char>, marker: Marker)
        ensures
            final(self)@ == close_buffer(old(self)@, chars@, marker),
    {
        let ghost s0 = self@;
        let ghost c0 = chars@;
        let mut chars = chars;
        match self.state {
            ScanState::Represented => {
                self.current.represented = chars;
            },
            ScanState::Sequence => {
                self.current.sequences.append(&mut chars);
            },
        }
        self.pending = Vec::new();
        match marker {
            Marker::Separator => {
                let mut done = TableEntry { represented: Vec::new(), sequences: Vec::new() };
                core::mem::swap(&mut done, &mut self.current);
                let ghost d = done@;
                if !self.damaged {
                    self.entries.push(done);
                    assert(entries_view(self.entries@) =~= s0.entries.push(d));
                }
                self.state = ScanState::Represented;
                self.damaged = false;
            },
            Marker::StartSequence => {
                self.state = ScanState::Sequence;
            },
        }
        assert(self@.pending =~= seq![]);
        let ghost goal = close_buffer(s0, c0, marker);
        assert(self@.current.represented =~= goal.current.represented);
        assert(self@.current.sequences =~= goal.current.sequences);
        assert(self@.entries =~= goal.entries);
    }

    /// Handles a marker whose pending buffer is not valid text, leaving the
    /// current entry out of the table.
    pub fn discard(&mut self, marker: Marker)
        ensures
            final(self)@ == discard_buffer(old(self)@, marker),
    {
        self.pending = Vec::new();
        match marker {
            Marker::Separator => {
                self.current = TableEntry { represented: Vec::new(), sequences: Vec::new() };
                self.state = ScanState::Represented;
                self.damaged = false;
            },
            Marker::StartSequence => {
                self.state = ScanState::Sequence;
                self.damaged = true;
            },
        }
        assert(self@.pending =~= seq![]);
        assert(self@.current.represented =~= discard_buffer(old(self)@, marker).current.represented);
        assert(self@.current.sequences =~= discard_buffer(old(self)@, marker).current.sequences);
    }

    /// The entries closed so far.
    pub fn into_entries(self) -> (r: Vec<TableEntry>)
        ensures
            entries_view(r@) == self@.entries,
    {
        self.entries
    }
}

pub open spec fn is_high_surrogate(u: u16) -> bool {
    0xD800 <= u <= 0xDBFF
}

pub open spec fn is_low_surrogate(u: u16) -> bool {
    0xDC00 <= u <= 0xDFFF
}

/// The characters of UTF-16 code units, or `None` where a surrogate is
/// unpaired: a unit outside the surrogate range is its own character, and a
/// high surrogate followed by a low one encodes a character above 0xFFFF.
pub open spec fn utf16_decode(units: Seq<u16>) -> Option<Seq<char>>
    decreases units.len(),
{
    if units.len() == 0 {
        Some(seq![])
    } else if is_high_surrogate(units[0]) {
        if units.len() >= 2 && is_low_surrogate(units[1]) {
            let c = 0x10000 + (units[0] - 0xD800) * 0x400 + (units[1] - 0xDC00);
            match utf16_decode(units.skip(2)) {
                Some(rest) => Some(seq![c as u32 as char] + rest),
                None => None,
            }
        } else {
            None
        }
    } else if is_low_surrogate(units[0]) {
        None
    } else {
        match utf16_decode(units.skip(1)) {
            Some(rest) => Some(seq![units[0] as u32 as char] + rest),
            None => None,
        }
    }
}

/// Relies on `std::char::decode_utf16`, collected until the first unpaired
/// surrogate: it yields each unit outside the surrogate range as a character,
/// each high-low surrogate pair as the character they encode, and an error
/// for any other surrogate.
#[verifier::external_body]
fn decode_utf16_units(units: &Vec<u16>) -> (r: Option<Vec<char>>)
    ensures
        r is None <==> utf16_decode(units@) is None,
        r matches Some(v) ==> utf16_decode(units@) == Some(v@),
{
    std::char::decode_utf16(units.iter().copied()).collect::<Result<Vec<char>, _>>().ok()
}

/// The characters of UTF-8 bytes, or `None` where they are not valid UTF-8.
pub open spec fn utf8_decode(bytes: Seq<u8>) -> Option<Seq<char>> {
    if valid_utf8(bytes) {
        Some(decode_utf8(bytes))
    } else {
        None
    }
}

/// Relies on `std::str::from_utf8`: it accepts exactly the valid UTF-8 byte
/// strings, and the characters of the accepted string are their decoding.
#[verifier::external_body]
fn decode_utf8_bytes(bytes: &Vec<u8>) -> (r: Option<Vec<char>>)
    ensures
        r is None <==> utf8_decode(bytes@) is None,
        r matches Some(v) ==> utf8_decode(bytes@) == Some(v@),
{
    match std::str::from_utf8(bytes) {
        Ok(text) => Some(text.chars().collect()),
        Err(_) => None,
    }
}

pub open spec fn marker_utf16(u: u16) -> Option<Marker> {
    if u == 0xFFFF {
        Some(Marker::Separator)
    } else if u == 0xFFFE {
        Some(Marker::StartSequence)
    } else {
        None
    }
}

pub open spec fn marker_utf8(b: u8) -> Option<Marker> {
    if b == 0xFF {
        Some(Marker::Separator)
    } else if b == 0xFE {
        Some(Marker::StartSequence)
    } else {
        None
    }
}

pub open spec fn utf16_markers() -> spec_fn(u16) -> Option<Marker> {
    |u: u16| marker_utf16(u)
}

pub open spec fn utf16_decoder() -> spec_fn(Seq<u16>) -> Option<Seq<char>> {
    |p: Seq<u16>| utf16_decode(p)
}

pub open spec fn utf8_markers() -> spec_fn(u8) -> Option<Marker> {
    |b: u8| marker_utf8(b)
}

pub open spec fn utf8_decoder() -> spec_fn(Seq<u8>) -> Option<Seq<char>> {
    |p: Seq<u8>| utf8_decode(p)
}

/// The table read as little-endian 16-bit code units; an odd last byte
/// completes no unit.
pub open spec fn utf16_units(table: Seq<u8>) -> Seq<u16> {
    Seq::new(
        (table.len() / 2) as nat,
        |i: int| (table[2 * i] as int + 256 * table[2 * i + 1] as int) as u16,
    )
}

/// Entries of a first-generation table (UTF-16 units, markers 0xFFFF and
/// 0xFFFE), or `None` where a buffer is not valid UTF-16 and the policy aborts.
pub open spec fn utf16_table(table: Seq<u8>, policy: DecodePolicy) -> Option<Seq<EntryModel>> {
    match scan(utf16_units(table), utf16_markers(), utf16_decoder(), policy) {
        Some(s) => Some(s.entries),
        None => None,
    }
}

/// Entries of a second-generation table (UTF-8 bytes, markers 0xFF and
/// 0xFE), or `None` where a buffer is not valid UTF-8 and the policy aborts.
pub open spec fn utf8_table(table: Seq<u8>, policy: DecodePolicy) -> Option<Seq<EntryModel>> {
    match scan(table, utf8_markers(), utf8_decoder(), policy) {
        Some(s) => Some(s.entries),
        None => None,
    }
}

/// Decodes a first-generation mapping table.
pub fn parse_utf16_table(table: &[u8], policy: DecodePolicy) -> (r: Option<Vec<TableEntry>>)
    ensures
        match r {
            Some(v) => utf16_table(table@, policy) == Some(entries_view(v@)),
            None => utf16_table(table@, policy) is None,
        },
{
    let ghost units = utf16_units(table@);
    let n = table.len() / 2;
    assert(table@.len() == table.len());
    let mut scanner: TableScanner<u16> = TableScanner::new();
    let mut k: usize = 0;
    while k < n
        invariant
            units == utf16_units(table@),
            n == units.len(),
            n * 2 <= table@.len(),
            table@.len() <= usize::MAX,
            k <= n,
            scan(units.take(k as int), utf16_markers(), utf16_decoder(), policy) == Some(scanner@),
        decreases n - k,
    {
        let u: u16 = table[2 * k] as u16 + (table[2 * k + 1] as u16) * 256;
        assert(u == units[k as int]);
        assert(units.take(k + 1).drop_last() =~= units.take(k as int));
        if u == 0xFFFF || u == 0xFFFE {
            match decode_utf16_units(scanner.pending()) {
                Some(chars) => {
                    let m = if u == 0xFFFF { Marker::Separator } else { Marker::StartSequence };
                    scanner.close(chars, m);
                },
                None => match policy {
                    DecodePolicy::Abort => {
                        proof {
                            lemma_scan_stays_failed(
                                units,
                                k + 1,
                                utf16_markers(),
                                utf16_decoder(),
                                policy,
                            );
                        }
                        return None;
                    },
                    DecodePolicy::SkipEntry => {
                        scanner.discard(if u == 0xFFFF { Marker::Separator } else { Marker::StartSequence });
                    },
                },
            }
        } else {
            scanner.push(u);
        }
        k = k + 1;
    }
    assert(units.take(n as int) =~= units);
    Some(scanner.into_entries())
}

/// Decodes a second-generation mapping table.
pub fn parse_utf8_table(table: &[u8], policy: DecodePolicy) -> (r: Option<Vec<TableEntry>>)
    ensures
        match r {
            Some(v) => utf8_table(table@, policy) == Some(entries_view(v@)),
            None => utf8_table(table@, policy) is None,
        },
{
    let ghost units = table@;
    let n = table.len();
    let mut scanner: TableScanner<u8> = TableScanner::new();
    let mut k: usize = 0;
    while k < n
        invariant
            units == table@,
            n == units.len(),
            k <= n,
            scan(units.take(k as int), utf8_markers(), utf8_decoder(), policy) == Some(scanner@),
        decreases n - k,
    {
        let b = table[k];
        assert(units.take(k + 1).drop_last() =~= units.take(k as int));
        if b == 0xFF || b == 0xFE {
            match decode_utf8_bytes(scanner.pending()) {
                Some(chars) => {
                    let m = if b == 0xFF { Marker::Separator } else { Marker::StartSequence };
                    scanner.close(chars, m);
                },
                None => match policy {
                    DecodePolicy::Abort => {
                        proof {
                            lemma_scan_stays_failed(
                                units,
                                k + 1,
                                utf8_markers(),
                                utf8_decoder(),
                                policy,
                            );
                        }
                        return None;
                    },
                    DecodePolicy::SkipEntry => {
                        scanner.discard(if b == 0xFF { Marker::Separator } else { Marker::StartSequence });
                    },
                },
            }
        } else {
            scanner.push(b);
        }
        k = k + 1;
    }
    assert(units.take(n as int) =~= units);
    Some(scanner.into_entries())
}

} // verus!
