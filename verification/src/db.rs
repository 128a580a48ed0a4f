//! The index store's life: its column families, its configuration record,
//! the batch of rows written for a block, and what opening and flushing the
//! store decide.

use vstd::prelude::*;
use vstd::string::StringExecFns;
use crate::bytes::{copy, le_bytes, lemma_lex_total, lemma_lex_transitive, lex_le, lex_less, u32_le};
use crate::hexcodec::hex_text;
use crate::text::{decimal_string, decimal_text};

verus! {

/// A row of the index: an opaque byte string.
pub type Row = Vec<u8>;

/// The column families of the index store.
#[derive(Clone, Copy, Debug, PartialEq, Eq, Structural)]
pub enum ColumnFamily {
    Config,
    Headers,
    Txid,
    Funding,
    Spending,
    Index,
    Height,
    Pending,
}

impl ColumnFamily {
    /// The name under which the storage engine knows the column family.
    pub fn name(&self) -> (name: &'static str)
        ensures
            name@ == (match *self {
                ColumnFamily::Config => "config"@,
                ColumnFamily::Headers => "headers"@,
                ColumnFamily::Txid => "txid"@,
                ColumnFamily::Funding => "funding"@,
                ColumnFamily::Spending => "spending"@,
                ColumnFamily::Index => "index"@,
                ColumnFamily::Height => "height"@,
                ColumnFamily::Pending => "pending"@,
            }),
    {
        match self {
            ColumnFamily::Config => "config",
            ColumnFamily::Headers => "headers",
            ColumnFamily::Txid => "txid",
            ColumnFamily::Funding => "funding",
            ColumnFamily::Spending => "spending",
            ColumnFamily::Index => "index",
            ColumnFamily::Height => "height",
            ColumnFamily::Pending => "pending",
        }
    }
}

/// Every column family, in the order in which the store creates, flushes and
/// compacts them.
pub open spec fn all_column_families() -> Seq<ColumnFamily> {
    seq![
        ColumnFamily::Config,
        ColumnFamily::Headers,
        ColumnFamily::Txid,
        ColumnFamily::Funding,
        ColumnFamily::Spending,
        ColumnFamily::Index,
        ColumnFamily::Height,
        ColumnFamily::Pending,
    ]
}

/// Every column family, in the order in which the store creates, flushes and
/// compacts them.
pub fn column_families() -> (all: Vec<ColumnFamily>)
    ensures
        all@ == all_column_families(),
{
    let mut all: Vec<ColumnFamily> = Vec::new();
    all.push(ColumnFamily::Config);
    all.push(ColumnFamily::Headers);
    all.push(ColumnFamily::Txid);
    all.push(ColumnFamily::Funding);
    all.push(ColumnFamily::Spending);
    all.push(ColumnFamily::Index);
    all.push(ColumnFamily::Height);
    all.push(ColumnFamily::Pending);
    assert(all@ =~= all_column_families());
    all
}

/// The column family of the index rows.
pub fn index_cf() -> (cf: ColumnFamily)
    ensures
        cf == ColumnFamily::Index,
{
    ColumnFamily::Index
}

/// The column family of the pending rows.
pub fn pending_cf() -> (cf: ColumnFamily)
    ensures
        cf == ColumnFamily::Pending,
{
    ColumnFamily::Pending
}

/// The schema version that this code reads and writes.
pub const CURRENT_FORMAT: u64 = 0;

/// The configuration record of a store.
#[derive(Clone, Copy, Debug, PartialEq, Eq, Structural)]
pub struct Config {
    /// Whether the one full compaction after the initial load was done.
    pub compacted: bool,
    /// The schema version the store was written with.
    pub format: u64,
}

impl Default for Config {
    /// The record of a store that was just created.
    fn default() -> (config: Config)
        ensures
            config == (Config { compacted: false, format: CURRENT_FORMAT }),
    {
        Config { compacted: false, format: CURRENT_FORMAT }
    }
}

/// Why a store refuses to open.
#[derive(Clone, Copy, Debug, PartialEq, Eq, Structural)]
pub enum StoreError {
    /// The store was written with another schema version.
    ReindexRequired { found: u64, expected: u64 },
}

/// The text of an error.
pub open spec fn error_text(e: StoreError) -> Seq<char> {
    match e {
        StoreError::ReindexRequired { found, expected } => {
            "re-index required due to unsupported format "@ + decimal_text(found as nat) + " != "@
                + decimal_text(expected as nat)
        },
    }
}

impl StoreError {
    /// The text of the error.
    pub fn message(&self) -> (text: String)
        ensures
            text@ == error_text(*self),
    {
        match self {
            StoreError::ReindexRequired { found, expected } => {
                let mut text = String::from_str("re-index required due to unsupported format ");
                let found_text = decimal_string(*found);
                text.append(found_text.as_str());
                text.append(" != ");
                let expected_text = decimal_string(*expected);
                text.append(expected_text.as_str());
                text
            },
        }
    }
}

/// Whether `rows` are in lexicographic order.
pub open spec fn rows_sorted(rows: Seq<Row>) -> bool {
    forall|i: int, j: int| 0 <= i <= j < rows.len() ==> lex_le(#[trigger] rows[i]@, #[trigger] rows[j]@)
}

/// Sorts `rows` lexicographically.
#[verifier::rlimit(40)]
pub fn sort_rows(rows: &mut Vec<Row>)
    ensures
        rows_sorted(final(rows)@),
        final(rows)@.to_multiset() == old(rows)@.to_multiset(),
{
    broadcast use vstd::seq_lib::group_to_multiset_ensures;

    let mut i: usize = 0;
    while i < rows.len()
        invariant
            i <= rows@.len(),
            rows@.len() == old(rows)@.len(),
            rows_sorted(rows@.subrange(0, i as int)),
            rows@.to_multiset() == old(rows)@.to_multiset(),
        decreases rows@.len() - i,
    {
        let ghost before = rows@;
        let row = rows.remove(i);
        let ghost without = rows@;
        let mut j: usize = i;
        while j > 0 && lex_less(&row, &rows[j - 1])
            invariant
                j <= i,
                i <= rows@.len(),
                rows@ == without,
                forall|k: int| j <= k < i ==> lex_le(row@, #[trigger] rows@[k]@),
            decreases j,
        {
            j = j - 1;
        }
        rows.insert(j, row);
        proof {
            let after = rows@;
            assert(after.remove(j as int) =~= without);
            assert(after[j as int] == row);
            assert(before[i as int] == row);
            assert(after.to_multiset() =~= before.to_multiset()) by {
                assert(without == before.remove(i as int));
                vstd::seq_lib::to_multiset_remove(before, i as int);
                vstd::seq_lib::to_multiset_remove(after, j as int);
                before.to_multiset_ensures();
                after.to_multiset_ensures();
                assert(before.contains(row));
                assert(after.contains(row));
                assert(before.to_multiset().count(row) > 0);
                assert(after.to_multiset().count(row) > 0);
                assert(before.to_multiset() =~= before.to_multiset().remove(row).insert(row));
                assert(after.to_multiset() =~= after.to_multiset().remove(row).insert(row));
            }
            let sorted = before.subrange(0, i as int);
            let grown = after.subrange(0, i + 1);
            assert forall|a: int, b: int| 0 <= a <= b < grown.len() implies lex_le(
                #[trigger] grown[a]@,
                #[trigger] grown[b]@,
            ) by {
                let x = if a < j {
                    sorted[a]
                } else if a == j {
                    row
                } else {
                    sorted[a - 1]
                };
                let y = if b < j {
                    sorted[b]
                } else if b == j {
                    row
                } else {
                    sorted[b - 1]
                };
                assert(grown[a] == x);
                assert(grown[b] == y);
                if a < j && b == j {
                    // what stands before the place of insertion is no greater
                    assert(grown[j - 1] == sorted[j - 1]);
                    assert(lex_le(sorted[a]@, sorted[j - 1]@));
                    lemma_lex_total(row@, sorted[j - 1]@);
                    if sorted[a]@ != sorted[j - 1]@ && sorted[j - 1]@ != row@ {
                        lemma_lex_transitive(sorted[a]@, sorted[j - 1]@, row@);
                    }
                } else if a < j && b > j {
                    assert(lex_le(sorted[a]@, sorted[b - 1]@));
                } else if a == j && b > j {
                    assert(without[b - 1] == sorted[b - 1]);
                } else if a > j {
                    assert(lex_le(sorted[a - 1]@, sorted[b - 1]@));
                } else if b < j {
                    assert(lex_le(sorted[a]@, sorted[b]@));
                }
            }
        }
        i = i + 1;
    }
    assert(rows@.subrange(0, rows@.len() as int) =~= rows@);
}

/// The rows written for one block.
#[derive(Clone, Debug, PartialEq, Eq)]
pub struct WriteBatch {
    pub tip_row: Row,
    pub tip_height: u32,
    pub header_rows: Vec<Row>,
    pub funding_rows: Vec<Row>,
    pub spending_rows: Vec<Row>,
    pub txid_rows: Vec<Row>,
}

impl Default for WriteBatch {
    /// A batch without rows, for height 0.
    fn default() -> (batch: WriteBatch)
        ensures
            batch.tip_row@.len() == 0,
            batch.tip_height == 0,
            batch.header_rows@.len() == 0,
            batch.funding_rows@.len() == 0,
            batch.spending_rows@.len() == 0,
            batch.txid_rows@.len() == 0,
    {
        WriteBatch {
            tip_row: Vec::new(),
            tip_height: 0,
            header_rows: Vec::new(),
            funding_rows: Vec::new(),
            spending_rows: Vec::new(),
            txid_rows: Vec::new(),
        }
    }
}

impl WriteBatch {
    /// Sorts the rows of each kind lexicographically, as the storage engine
    /// takes them fastest.
    pub fn sort(&mut self)
        ensures
            rows_sorted(final(self).header_rows@),
            rows_sorted(final(self).funding_rows@),
            rows_sorted(final(self).spending_rows@),
            rows_sorted(final(self).txid_rows@),
            final(self).header_rows@.to_multiset() == old(self).header_rows@.to_multiset(),
            final(self).funding_rows@.to_multiset() == old(self).funding_rows@.to_multiset(),
            final(self).spending_rows@.to_multiset() == old(self).spending_rows@.to_multiset(),
            final(self).txid_rows@.to_multiset() == old(self).txid_rows@.to_multiset(),
            final(self).tip_row == old(self).tip_row,
            final(self).tip_height == old(self).tip_height,
    {
        sort_rows(&mut self.header_rows);
        sort_rows(&mut self.funding_rows);
        sort_rows(&mut self.spending_rows);
        sort_rows(&mut self.txid_rows);
    }
}

/// One row to store in a column family.
#[derive(Clone, Debug, PartialEq, Eq)]
pub struct CfPut {
    pub cf: ColumnFamily,
    pub key: Row,
    pub value: Vec<u8>,
}

/// A row to store, as mathematics.
pub struct CfPutView {
    pub cf: ColumnFamily,
    pub key: Seq<u8>,
    pub value: Seq<u8>,
}

impl View for CfPut {
    type V = CfPutView;

    open spec fn view(&self) -> CfPutView {
        CfPutView { cf: self.cf, key: self.key@, value: self.value@ }
    }
}

/// The rows as mathematics, in order.
pub open spec fn put_views(puts: Seq<CfPut>) -> Seq<CfPutView> {
    puts.map_values(|p: CfPut| p@)
}

/// The rows `rows` as keys without a value in `cf`.
pub open spec fn key_puts(cf: ColumnFamily, rows: Seq<Row>) -> Seq<CfPutView> {
    Seq::new(rows.len(), |i: int| CfPutView { cf, key: rows[i]@, value: Seq::empty() })
}

/// What writing a batch stores: the funding, spending, txid and header rows
/// as keys without a value, then the tip row under `T` among the headers and
/// the tip height, little-endian, under `H`.
pub open spec fn batch_puts(batch: WriteBatch) -> Seq<CfPutView> {
    key_puts(ColumnFamily::Funding, batch.funding_rows@) + key_puts(
        ColumnFamily::Spending,
        batch.spending_rows@,
    ) + key_puts(ColumnFamily::Txid, batch.txid_rows@) + key_puts(
        ColumnFamily::Headers,
        batch.header_rows@,
    ) + seq![
        CfPutView { cf: ColumnFamily::Headers, key: seq![0x54u8], value: batch.tip_row@ },
        CfPutView { cf: ColumnFamily::Height, key: seq![0x48u8], value: le_bytes(batch.tip_height) },
    ]
}

/// Appends `rows` to `puts` as keys without a value in `cf`.
fn push_keys(puts: &mut Vec<CfPut>, cf: ColumnFamily, rows: &Vec<Row>)
    ensures
        put_views(final(puts)@) == put_views(old(puts)@) + key_puts(cf, rows@),
{
    let mut i: usize = 0;
    assert(put_views(puts@) =~= put_views(old(puts)@) + key_puts(cf, rows@.subrange(0, 0)));
    while i < rows.len()
        invariant
            i <= rows@.len(),
            put_views(puts@) == put_views(old(puts)@) + key_puts(cf, rows@.subrange(0, i as int)),
        decreases rows@.len() - i,
    {
        let ghost before = put_views(puts@);
        puts.push(CfPut { cf, key: copy(&rows[i]), value: Vec::new() });
        i = i + 1;
        assert(put_views(puts@) =~= before.push(
            CfPutView { cf, key: rows@[i - 1]@, value: Seq::empty() },
        ));
        assert(key_puts(cf, rows@.subrange(0, i as int)) =~= key_puts(
            cf,
            rows@.subrange(0, i - 1),
        ).push(CfPutView { cf, key: rows@[i - 1]@, value: Seq::empty() }));
    }
    assert(rows@.subrange(0, rows@.len() as int) =~= rows@);
}

/// How the store was opened.
#[derive(Clone, Copy, Debug, PartialEq, Eq, Structural)]
pub enum Mode {
    /// With exclusive write access.
    Primary,
    /// As a read-only follower of a primary.
    Secondary,
}

/// What opening a store has the storage engine do: if `store_config` holds
/// a record, store it.
#[derive(Clone, Copy, Debug, PartialEq, Eq, Structural)]
pub struct OpenPlan {
    pub store_config: Option<Config>,
}

/// What a flush has the storage engine do, in this order: if `flush`, flush
/// every column family; if `compact`, compact every column family in full;
/// if `store_config` holds a record, store it; if
/// `enable_auto_compactions`, switch automatic compactions on for every
/// column family.
#[derive(Clone, Copy, Debug, PartialEq, Eq, Structural)]
pub struct FlushPlan {
    pub flush: bool,
    pub compact: bool,
    pub store_config: Option<Config>,
    pub enable_auto_compactions: bool,
}

/// The record that a store is opened with: the stored one, or that of a
/// store that was just created.
pub open spec fn opened_config(stored: Option<Config>) -> Config {
    match stored {
        Some(c) => c,
        None => Config { compacted: false, format: CURRENT_FORMAT },
    }
}

/// What opening asks of the storage engine: a primary stores the record it
/// was opened with; a read-only follower stores nothing.
pub open spec fn open_plan(stored: Option<Config>, mode: Mode) -> OpenPlan {
    OpenPlan {
        store_config: if mode == Mode::Primary {
            Some(opened_config(stored))
        } else {
            None
        },
    }
}

/// The configuration record of a store after a flush: compacted, unless the
/// store is a read-only follower, whose record is the primary's to change.
pub open spec fn flushed_config(config: Config, mode: Mode) -> Config {
    if mode == Mode::Primary {
        Config { compacted: true, format: config.format }
    } else {
        config
    }
}

/// What a flush asks of the storage engine in a store with the record
/// `config` that is in its initial load or not. A primary is flushed; it is
/// compacted in full and given the new record if it was never compacted;
/// and its automatic compactions are switched on if the initial load ends
/// with this flush. A read-only follower is asked nothing.
pub open spec fn flush_plan(config: Config, bulk_import: bool, mode: Mode) -> FlushPlan {
    if mode == Mode::Primary {
        FlushPlan {
            flush: true,
            compact: !config.compacted,
            store_config: if config.compacted {
                None
            } else {
                Some(flushed_config(config, mode))
            },
            enable_auto_compactions: bulk_import,
        }
    } else {
        FlushPlan { flush: false, compact: false, store_config: None, enable_auto_compactions: false }
    }
}

/// `n` without its `count` lowest bytes.
pub open spec fn without_low_bytes(n: nat, count: nat) -> nat
    decreases count,
{
    if count == 0 {
        n
    } else {
        without_low_bytes(n / 256, (count - 1) as nat)
    }
}

/// The sixteen bytes of `bits`, most significant first.
pub open spec fn identifier_bytes(bits: u128) -> Seq<u8> {
    Seq::new(16, |i: int| (without_low_bytes(bits as nat, (15 - i) as nat) % 256) as u8)
}

/// The text of the identifier whose 128 bits are `bits`: its bytes in
/// lower-case hexadecimal digits, in groups of 8, 4, 4, 4 and 12 digits
/// with hyphens between them.
pub open spec fn hyphenated_text(bits: u128) -> Seq<char> {
    let digits = hex_text(identifier_bytes(bits));
    digits.subrange(0, 8) + seq!['-'] + digits.subrange(8, 12) + seq!['-'] + digits.subrange(12, 16)
        + seq!['-'] + digits.subrange(16, 20) + seq!['-'] + digits.subrange(20, 32)
}

/// `Uuid::from_u128`, `Uuid::hyphenated` and the `Display` of the result:
/// the identifier takes the 128 bits as its bytes, most significant first,
/// and is written as lower-case hexadecimal digits in groups of 8, 4, 4, 4
/// and 12 with hyphens between them.
#[verifier::external_body]
fn hyphenated(bits: u128) -> (text: String)
    ensures
        text@ == hyphenated_text(bits),
{
    uuid::Uuid::from_u128(bits).hyphenated().to_string()
}

/// `rand::random`: some 128 bits.
#[verifier::external_body]
fn random_bits() -> (bits: u128)
{
    rand::random::<u128>()
}

/// The name of the private directory of a read-only follower made of the
/// bits `random`: the text of the identifier with those bits, 36 characters
/// long.
pub fn scratch_name_of(random: u128) -> (name: String)
    ensures
        name@ == hyphenated_text(random),
        name@.len() == 36,
{
    hyphenated(random)
}

/// A fresh name for the private directory of a read-only follower: that of
/// bits drawn at random.
pub fn scratch_name() -> (name: String)
    ensures
        exists|random: u128| name@ == hyphenated_text(random),
        name@.len() == 36,
{
    scratch_name_of(random_bits())
}

/// The state of an open index store, beside what the storage engine holds.
#[derive(Debug)]
pub struct DBStore {
    config: Config,
    bulk_import: bool,
    mode: Mode,
}

impl DBStore {
    /// The configuration record of the store.
    pub closed spec fn config(&self) -> Config {
        self.config
    }

    /// Whether the store is still in its initial load: automatic compactions
    /// are off.
    pub closed spec fn bulk_import(&self) -> bool {
        self.bulk_import
    }

    /// How the store was opened.
    pub closed spec fn mode(&self) -> Mode {
        self.mode
    }

    /// Opens a store whose configuration record is `stored`, absent in a
    /// store that was just created. A record of another schema version
    /// refuses the store, in either mode. An opened store starts in its
    /// initial load, with the stored record or, without one, the record of a
    /// new store; a primary has that record stored, a read-only follower
    /// stores nothing.
    pub fn open(stored: Option<Config>, view: bool) -> (out: Result<(DBStore, OpenPlan), StoreError>)
        ensures
            out.is_err() == (stored matches Some(c) && c.format != CURRENT_FORMAT),
            out matches Err(e) ==> e == (StoreError::ReindexRequired {
                found: stored.unwrap().format,
                expected: CURRENT_FORMAT,
            }),
            out matches Ok(opened) ==> {
                &&& opened.0.config() == opened_config(stored)
                &&& opened.0.bulk_import()
                &&& opened.0.mode() == (if view {
                    Mode::Secondary
                } else {
                    Mode::Primary
                })
                &&& opened.1 == open_plan(stored, opened.0.mode())
            },
    {
        let config = match stored {
            Some(c) => c,
            None => Config::default(),
        };
        if config.format != CURRENT_FORMAT {
            return Err(StoreError::ReindexRequired { found: config.format, expected: CURRENT_FORMAT });
        }
        let (mode, store_config) = if view {
            (Mode::Secondary, None)
        } else {
            (Mode::Primary, Some(config))
        };
        Ok((DBStore { config, bulk_import: true, mode }, OpenPlan { store_config }))
    }

    /// The configuration record of the store.
    pub fn get_config(&self) -> (config: Config)
        ensures
            config == self.config(),
    {
        self.config
    }

    /// Replaces the configuration record of the store.
    pub fn set_config(&mut self, config: Config)
        ensures
            final(self).config() == config,
            final(self).bulk_import() == old(self).bulk_import(),
            final(self).mode() == old(self).mode(),
    {
        self.config = config;
    }

    /// Whether the store is still in its initial load.
    pub fn is_bulk_import(&self) -> (yes: bool)
        ensures
            yes == self.bulk_import(),
    {
        self.bulk_import
    }

    /// Whether the store may be written: a primary may, a read-only follower
    /// never is.
    pub fn may_write(&self) -> (yes: bool)
        ensures
            yes == (self.mode() == Mode::Primary),
    {
        self.mode == Mode::Primary
    }

    /// Whether the store was opened as a read-only follower.
    pub fn is_secondary(&self) -> (yes: bool)
        ensures
            yes == (self.mode() == Mode::Secondary),
    {
        self.mode == Mode::Secondary
    }

    /// Ends the initial load: automatic compactions are to be on from now.
    pub fn start_compactions(&mut self)
        ensures
            !final(self).bulk_import(),
            final(self).config() == old(self).config(),
            final(self).mode() == old(self).mode(),
    {
        self.bulk_import = false;
    }

    /// Flushes the store. The first flush of a primary that was never
    /// compacted has it compacted in full and records that in the
    /// configuration; every flush of a primary ends the initial load, and
    /// the flush that ends it switches automatic compactions on. The data
    /// is left as it is. A read-only follower is left alone.
    pub fn flush(&mut self) -> (plan: FlushPlan)
        ensures
            plan == flush_plan(old(self).config(), old(self).bulk_import(), old(self).mode()),
            final(self).config() == flushed_config(old(self).config(), old(self).mode()),
            final(self).bulk_import() == (old(self).mode() == Mode::Secondary && old(
                self,
            ).bulk_import()),
            final(self).mode() == old(self).mode(),
    {
        if self.mode == Mode::Secondary {
            return FlushPlan {
                flush: false,
                compact: false,
                store_config: None,
                enable_auto_compactions: false,
            };
        }
        let compact = !self.config.compacted;
        let enable = self.bulk_import;
        let store_config = if compact {
            self.config.compacted = true;
            Some(self.config)
        } else {
            None
        };
        self.start_compactions();
        FlushPlan { flush: true, compact, store_config, enable_auto_compactions: enable }
    }

    /// The rows that writing `batch` stores, in the order in which they are
    /// put into one atomic write. A read-only follower stores none.
    pub fn write(&self, batch: &WriteBatch) -> (puts: Vec<CfPut>)
        ensures
            put_views(puts@) == (if self.mode() == Mode::Primary {
                batch_puts(*batch)
            } else {
                Seq::empty()
            }),
    {
        let mut puts: Vec<CfPut> = Vec::new();
        assert(put_views(puts@) =~= Seq::<CfPutView>::empty());
        if self.mode == Mode::Secondary {
            return puts;
        }
        push_keys(&mut puts, ColumnFamily::Funding, &batch.funding_rows);
        push_keys(&mut puts, ColumnFamily::Spending, &batch.spending_rows);
        push_keys(&mut puts, ColumnFamily::Txid, &batch.txid_rows);
        push_keys(&mut puts, ColumnFamily::Headers, &batch.header_rows);
        let ghost keys = put_views(puts@);
        let mut tip_key: Vec<u8> = Vec::new();
        tip_key.push(0x54);
        let mut height_key: Vec<u8> = Vec::new();
        height_key.push(0x48);
        puts.push(CfPut { cf: ColumnFamily::Headers, key: tip_key, value: copy(&batch.tip_row) });
        puts.push(CfPut { cf: ColumnFamily::Height, key: height_key, value: u32_le(batch.tip_height) });
        assert(put_views(puts@) =~= batch_puts(*batch));
        puts
    }
}

/// The header rows among the rows read from the headers column family: all
/// but the tip row, which is stored there under `T`.
pub open spec fn header_rows_of(rows: Seq<Row>, n: nat) -> Seq<Seq<u8>>
    decreases n,
{
    if n == 0 {
        Seq::empty()
    } else if rows[n - 1]@ == seq![0x54u8] {
        header_rows_of(rows, (n - 1) as nat)
    } else {
        header_rows_of(rows, (n - 1) as nat).push(rows[n - 1]@)
    }
}

/// The rows as mathematics, in order.
pub open spec fn row_views(rows: Seq<Row>) -> Seq<Seq<u8>> {
    rows.map_values(|r: Row| r@)
}

/// Picks the header rows out of the rows read from the headers column
/// family.
pub fn read_headers(rows: Vec<Row>) -> (headers: Vec<Row>)
    ensures
        row_views(headers@) == header_rows_of(rows@, rows@.len()),
{
    let mut headers: Vec<Row> = Vec::new();
    let mut i: usize = 0;
    assert(row_views(headers@) =~= header_rows_of(rows@, 0));
    while i < rows.len()
        invariant
            i <= rows@.len(),
            row_views(headers@) == header_rows_of(rows@, i as nat),
        decreases rows@.len() - i,
    {
        let row = &rows[i];
        let is_tip = row.len() == 1 && row[0] == 0x54;
        proof {
            if is_tip {
                assert(row@ =~= seq![0x54u8]);
            }
        }
        if !is_tip {
            let ghost before = row_views(headers@);
            headers.push(copy(row));
            assert(row_views(headers@) =~= before.push(row@));
        }
        i = i + 1;
    }
    headers
}

/// Flushing twice is flushing once: the second flush leaves the
/// configuration as the first left it, and asks the storage engine for no
/// compaction, no new record and no change of automatic compactions.
pub proof fn law_flush_idempotent(config: Config, bulk_import: bool, mode: Mode)
    ensures
        flushed_config(flushed_config(config, mode), mode) == flushed_config(config, mode),
        ({
            let again = flush_plan(flushed_config(config, mode), false, mode);
            !again.compact && again.store_config.is_none() && !again.enable_auto_compactions
        }),
{
}

/// A read-only follower is asked to write nothing: opening it stores no
/// record, and flushing it flushes, compacts and stores nothing.
pub proof fn law_follower_is_left_alone(stored: Option<Config>, config: Config, bulk_import: bool)
    ensures
        open_plan(stored, Mode::Secondary).store_config.is_none(),
        flush_plan(config, bulk_import, Mode::Secondary) == (FlushPlan {
            flush: false,
            compact: false,
            store_config: None,
            enable_auto_compactions: false,
        }),
        flushed_config(config, Mode::Secondary) == config,
{
}

} // verus!
