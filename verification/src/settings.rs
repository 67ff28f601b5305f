//! Venue configuration.
//!
//! Nothing about a particular venue is compiled in. The tax rate, the service
//! charge, the hour the trading day turns over, what a tab is identified by,
//! whether receipts print at all: every one of those is a row of this table.
//! There is no key that permits negative stock, and the absence is deliberate.

use vstd::prelude::*;

use crate::bill::ChargeConfig;
use crate::calendar::{read_time, BusinessCalendar, CalendarError, TimeOfDay};
use crate::money::{size_of_int, BasisPoints, Money};
use crate::repo::{SqlError, SqlWhy};
use crate::store::{ledgers_kept, Store};
use crate::text::{
    all_digits, chars_of, digit, is_digit, join2, nat_text, parse_number, parsed_number, push_nat,
    same, sorts_before, text_before, text_before_is_an_order,
};

pub mod keys;

verus! {

/// One setting, and who last changed it.
#[derive(Debug, PartialEq, Eq)]
pub struct SettingRow {
    pub key: String,
    pub value: String,
    pub updated_at: i64,
    pub updated_by: Option<i64>,
}

impl Clone for SettingRow {
    fn clone(&self) -> (result: Self)
        ensures
            result == *self,
    {
        SettingRow {
            key: self.key.clone(),
            value: self.value.clone(),
            updated_at: self.updated_at,
            updated_by: self.updated_by,
        }
    }
}

/// Why a setting could not be read or written.
#[derive(Debug, PartialEq, Eq)]
pub enum SettingsError {
    Sqlite(SqlError),
    /// Not a setting that this version knows.
    UnknownKey(String),
    /// Not a value that the setting can have.
    Invalid { key: String, value: String, why: &'static str },
    /// The trading hours are not readable.
    BadCalendar(CalendarError),
}

/// [`SettingsError`], over characters.
pub enum SettingsWhy {
    Sqlite(SqlWhy),
    UnknownKey(Seq<char>),
    Invalid { key: Seq<char>, value: Seq<char>, why: Seq<char> },
    BadCalendar(CalendarError),
}

impl View for SettingsError {
    type V = SettingsWhy;

    open spec fn view(&self) -> SettingsWhy {
        match self {
            SettingsError::Sqlite(error) => SettingsWhy::Sqlite(error@),
            SettingsError::UnknownKey(key) => SettingsWhy::UnknownKey(key@),
            SettingsError::Invalid { key, value, why } => SettingsWhy::Invalid {
                key: key@,
                value: value@,
                why: why@,
            },
            SettingsError::BadCalendar(error) => SettingsWhy::BadCalendar(*error),
        }
    }
}

impl SettingsWhy {
    pub open spec fn message(self) -> Seq<char> {
        match self {
            SettingsWhy::Sqlite(why) => "sqlite: "@ + why.message(),
            SettingsWhy::UnknownKey(key) => "'"@ + key
                + "' is not a setting this version of ServePoint knows"@,
            SettingsWhy::Invalid { key, value, why } => key + " cannot be '"@ + value + "': "@
                + why,
            SettingsWhy::BadCalendar(error) => "the trading hours are not readable: "@
                + error.spec_message(),
        }
    }
}

impl SettingsError {
    /// The error in words.
    pub fn message(&self) -> (result: String)
        ensures
            result@ == self@.message(),
    {
        match self {
            SettingsError::Sqlite(error) => join2("sqlite: ", error.message().as_str()),
            SettingsError::UnknownKey(key) => {
                let mut out: String = "'".to_owned();
                out.append(key.as_str());
                out.append("' is not a setting this version of ServePoint knows");
                out
            },
            SettingsError::Invalid { key, value, why } => {
                let mut out: String = key.clone();
                out.append(" cannot be '");
                out.append(value.as_str());
                out.append("': ");
                out.append(*why);
                out
            },
            SettingsError::BadCalendar(error) => join2(
                "the trading hours are not readable: ",
                error.message(),
            ),
        }
    }
}

/// What a tab is called on the floor.
#[derive(Debug, Clone, Copy, PartialEq, Eq, Structural)]
pub enum TabReference {
    Table,
    CustomerName,
    CustomerPhone,
    Custom,
}

impl TabReference {
    /// The reference that a stored word asks for: tables, unless it is one of
    /// the three others.
    pub open spec fn of_word(value: Seq<char>) -> TabReference {
        if value == "CUSTOMER_NAME"@ {
            TabReference::CustomerName
        } else if value == "CUSTOMER_PHONE"@ {
            TabReference::CustomerPhone
        } else if value == "CUSTOM"@ {
            TabReference::Custom
        } else {
            TabReference::Table
        }
    }

    pub fn parse(value: &str) -> (result: TabReference)
        ensures
            result == TabReference::of_word(value@),
    {
        if same(value, "CUSTOMER_NAME") {
            TabReference::CustomerName
        } else if same(value, "CUSTOMER_PHONE") {
            TabReference::CustomerPhone
        } else if same(value, "CUSTOM") {
            TabReference::Custom
        } else {
            TabReference::Table
        }
    }

    pub open spec fn word(self) -> Seq<char> {
        match self {
            TabReference::Table => "TABLE"@,
            TabReference::CustomerName => "CUSTOMER_NAME"@,
            TabReference::CustomerPhone => "CUSTOMER_PHONE"@,
            TabReference::Custom => "CUSTOM"@,
        }
    }

    pub fn as_str(self) -> (result: &'static str)
        ensures
            result@ == self.word(),
    {
        match self {
            TabReference::Table => "TABLE",
            TabReference::CustomerName => "CUSTOMER_NAME",
            TabReference::CustomerPhone => "CUSTOMER_PHONE",
            TabReference::Custom => "CUSTOM",
        }
    }

    pub open spec fn question(self) -> Seq<char> {
        match self {
            TabReference::Table => "Table number"@,
            TabReference::CustomerName => "Customer name"@,
            TabReference::CustomerPhone => "Customer phone"@,
            TabReference::Custom => "Reference"@,
        }
    }

    /// What the "new tab" screen should call the field it is asking for.
    pub fn prompt(self) -> (result: &'static str)
        ensures
            result@ == self.question(),
    {
        match self {
            TabReference::Table => "Table number",
            TabReference::CustomerName => "Customer name",
            TabReference::CustomerPhone => "Customer phone",
            TabReference::Custom => "Reference",
        }
    }

    /// The mode that a venue stores is the mode that it gets back.
    pub proof fn a_stored_mode_reads_back(self)
        ensures
            TabReference::of_word(self.word()) == self,
    {
        reveal_strlit("TABLE");
        reveal_strlit("CUSTOMER_NAME");
        reveal_strlit("CUSTOMER_PHONE");
        reveal_strlit("CUSTOM");
        assert("TABLE"@.len() == 5);
        assert("CUSTOMER_NAME"@.len() == 13);
        assert("CUSTOMER_PHONE"@.len() == 14);
        assert("CUSTOM"@.len() == 6);
    }
}

// ---------------------------------------------------------------------------
// A snapshot
// ---------------------------------------------------------------------------

/// One setting of a snapshot.
#[derive(Debug, PartialEq, Eq)]
pub struct Entry {
    pub key: String,
    pub value: String,
}

impl Clone for Entry {
    fn clone(&self) -> (result: Self)
        ensures
            result == *self,
    {
        Entry {
            key: self.key.clone(),
            value: self.value.clone(),
        }
    }
}

/// What settings say, key by key; a later one stands over an earlier.
pub open spec fn table_of(entries: Seq<Entry>) -> Map<Seq<char>, Seq<char>>
    decreases entries.len(),
{
    if entries.len() == 0 {
        Map::empty()
    } else {
        table_of(entries.drop_last()).insert(entries.last().key@, entries.last().value@)
    }
}

/// What the settings table says, key by key.
pub open spec fn settings_map(rows: Seq<SettingRow>) -> Map<Seq<char>, Seq<char>>
    decreases rows.len(),
{
    if rows.len() == 0 {
        Map::empty()
    } else {
        settings_map(rows.drop_last()).insert(rows.last().key@, rows.last().value@)
    }
}

/// What a setting says; nothing, where it is not there.
pub open spec fn setting(table: Map<Seq<char>, Seq<char>>, key: Seq<char>) -> Seq<char> {
    if table.contains_key(key) {
        table[key]
    } else {
        Seq::empty()
    }
}

/// Whether a setting is switched on.
pub open spec fn flag_of(table: Map<Seq<char>, Seq<char>>, key: Seq<char>) -> bool {
    setting(table, key) == "1"@
}

/// The number that a setting says; zero, where it says none.
pub open spec fn number_of(table: Map<Seq<char>, Seq<char>>, key: Seq<char>) -> i64 {
    match parsed_number(setting(table, key)) {
        Some(number) => number,
        None => 0,
    }
}

/// A rate, held between nothing and everything.
pub open spec fn rate_of(table: Map<Seq<char>, Seq<char>>, key: Seq<char>) -> BasisPoints {
    let number = number_of(table, key);
    BasisPoints(
        if number < 0 {
            0
        } else if number > 10_000 {
            10_000
        } else {
            number as u32
        },
    )
}

/// The venue's charges, as its settings say them.
pub open spec fn charges_of(table: Map<Seq<char>, Seq<char>>) -> ChargeConfig {
    ChargeConfig {
        tax_enabled: flag_of(table, keys::TAX_ENABLED@),
        tax_rate: rate_of(table, keys::TAX_RATE_BP@),
        tax_inclusive: flag_of(table, keys::TAX_INCLUSIVE@),
        service_enabled: flag_of(table, keys::SERVICE_ENABLED@),
        service_rate: rate_of(table, keys::SERVICE_RATE_BP@),
    }
}

/// How a tab is referred to.
pub open spec fn mode_of(table: Map<Seq<char>, Seq<char>>) -> TabReference {
    TabReference::of_word(setting(table, keys::TABS_REFERENCE_MODE@))
}

/// Whether the venue was set up.
pub open spec fn is_set_up(table: Map<Seq<char>, Seq<char>>) -> bool {
    flag_of(table, keys::SETUP_COMPLETED@)
}

/// The code that is written after an amount of money.
pub open spec fn currency_of(table: Map<Seq<char>, Seq<char>>) -> Seq<char> {
    setting(table, keys::CURRENCY_CODE@)
}

/// When a trading night starts and should end.
pub open spec fn hours_of(table: Map<Seq<char>, Seq<char>>) -> Option<BusinessCalendar> {
    match (
        read_time(setting(table, keys::DAY_START@)),
        read_time(setting(table, keys::DAY_END@)),
    ) {
        (Some(day_start), Some(day_end)) => Some(BusinessCalendar { day_start, day_end }),
        _ => None,
    }
}

/// A text of digits with a comma before every group of three.
pub open spec fn grouped(s: Seq<char>) -> Seq<char>
    decreases s.len(),
{
    if s.len() <= 3 {
        s
    } else {
        grouped(s.take(s.len() - 3)) + seq![','] + s.skip(s.len() - 3)
    }
}

/// An amount the way a venue with that currency code writes it.
pub open spec fn money_label(minor: int, code: Seq<char>) -> Seq<char> {
    let size = size_of_int(minor);
    let figure = (if minor < 0 {
        seq!['-']
    } else {
        Seq::empty()
    }) + grouped(nat_text(size / 100)) + seq![
        '.',
        digit((size / 10 % 10) as int),
        digit((size % 10) as int),
    ];
    if code.len() == 0 {
        figure
    } else {
        figure + " "@ + code
    }
}

/// An amount the way the venue writes it right now.
pub open spec fn shown(db: Store, minor: int) -> Seq<char> {
    money_label(minor, currency_of(settings_map(db.settings@)))
}

/// A snapshot of the whole settings table.
#[derive(Debug, Clone)]
pub struct Settings {
    values: Vec<Entry>,
}

impl View for Settings {
    type V = Map<Seq<char>, Seq<char>>;

    closed spec fn view(&self) -> Map<Seq<char>, Seq<char>> {
        table_of(self.values@)
    }
}

impl Default for Settings {
    /// A snapshot in which nothing is set.
    fn default() -> (result: Settings)
        ensures
            result@ == Map::<Seq<char>, Seq<char>>::empty(),
    {
        Settings { values: Vec::new() }
    }
}

impl Settings {
    /// Reads the whole table at once, so that no bill is worked out from half
    /// of one configuration and half of another.
    pub fn load(db: &Store) -> (result: Settings)
        ensures
            result@ == settings_map(db.settings@),
    {
        let mut values: Vec<Entry> = Vec::new();
        let mut i: usize = 0;
        while i < db.settings.len()
            invariant
                i <= db.settings.len(),
                table_of(values@) == settings_map(db.settings@.take(i as int)),
            decreases db.settings.len() - i,
        {
            let row: &SettingRow = &db.settings[i];
            let ghost before = values@;
            values.push(Entry { key: row.key.clone(), value: row.value.clone() });
            assert(values@.drop_last() =~= before);
            assert(db.settings@.take(i + 1).drop_last() =~= db.settings@.take(i as int));
            i = i + 1;
        }
        assert(db.settings@.take(db.settings@.len() as int) =~= db.settings@);
        Settings { values }
    }

    pub fn text(&self, key: &str) -> (result: &str)
        ensures
            result@ == setting(self@, key@),
    {
        let mut i: usize = self.values.len();
        assert(self.values@.take(i as int) =~= self.values@);
        while i > 0
            invariant
                i <= self.values.len(),
                setting(self@, key@) == setting(table_of(self.values@.take(i as int)), key@),
            decreases i,
        {
            assert(self.values@.take(i as int).drop_last() =~= self.values@.take(i - 1));
            i = i - 1;
            if same(self.values[i].key.as_str(), key) {
                return self.values[i].value.as_str();
            }
        }
        proof {
            reveal_strlit("");
            assert(""@ =~= Seq::<char>::empty());
        }
        ""
    }

    pub fn flag(&self, key: &str) -> (result: bool)
        ensures
            result == flag_of(self@, key@),
    {
        same(self.text(key), "1")
    }

    pub fn number(&self, key: &str) -> (result: i64)
        ensures
            result == number_of(self@, key@),
    {
        match parse_number(self.text(key)) {
            Some(number) => number,
            None => 0,
        }
    }

    /// Every setting, in the order of its key, each key once.
    pub fn iter(&self) -> (result: Vec<Entry>)
        ensures
            table_of(result@) == self@,
            forall|i: int, j: int|
                0 <= i < j < result@.len() ==> text_before(
                    #[trigger] result@[i].key@,
                    #[trigger] result@[j].key@,
                ),
    {
        let mut result: Vec<Entry> = Vec::new();
        let mut i: usize = 0;
        while i < self.values.len()
            invariant
                i <= self.values.len(),
                table_of(result@) == table_of(self.values@.take(i as int)),
                key_order(result@),
            decreases self.values.len() - i,
        {
            assert(self.values@.take(i + 1).drop_last() =~= self.values@.take(i as int));
            put_entry(&mut result, &self.values[i]);
            i = i + 1;
        }
        assert(self.values@.take(self.values@.len() as int) =~= self.values@);
        result
    }

    fn rate(&self, key: &str) -> (result: BasisPoints)
        ensures
            result == rate_of(self@, key@),
    {
        let number: i64 = self.number(key);
        if number < 0 {
            BasisPoints(0)
        } else if number > 10_000 {
            BasisPoints(10_000)
        } else {
            BasisPoints(number as u32)
        }
    }

    /// The charge rules as they stand right now. Snapshotted onto a
    /// transaction at the moment it is calculated and never re-read.
    pub fn charge_config(&self) -> (result: ChargeConfig)
        ensures
            result == charges_of(self@),
    {
        ChargeConfig {
            tax_enabled: self.flag(keys::TAX_ENABLED),
            tax_rate: self.rate(keys::TAX_RATE_BP),
            tax_inclusive: self.flag(keys::TAX_INCLUSIVE),
            service_enabled: self.flag(keys::SERVICE_ENABLED),
            service_rate: self.rate(keys::SERVICE_RATE_BP),
        }
    }

    /// The trading hours.
    pub fn calendar(&self) -> (result: Result<BusinessCalendar, SettingsError>)
        ensures
            match hours_of(self@) {
                Some(hours) => result == Ok::<BusinessCalendar, SettingsError>(hours),
                None => result matches Err(error) && error@ == SettingsWhy::BadCalendar(
                    CalendarError::UnreadableTime,
                ),
            },
    {
        let day_start: TimeOfDay = match TimeOfDay::parse(self.text(keys::DAY_START)) {
            Ok(time) => time,
            Err(error) => {
                return Err(SettingsError::BadCalendar(error));
            },
        };
        let day_end: TimeOfDay = match TimeOfDay::parse(self.text(keys::DAY_END)) {
            Ok(time) => time,
            Err(error) => {
                return Err(SettingsError::BadCalendar(error));
            },
        };
        Ok(BusinessCalendar { day_start, day_end })
    }

    pub fn reference_mode(&self) -> (result: TabReference)
        ensures
            result == mode_of(self@),
    {
        TabReference::parse(self.text(keys::TABS_REFERENCE_MODE))
    }

    pub fn setup_completed(&self) -> (result: bool)
        ensures
            result == is_set_up(self@),
    {
        self.flag(keys::SETUP_COMPLETED)
    }

    pub fn currency_code(&self) -> (result: &str)
        ensures
            result@ == currency_of(self@),
    {
        self.text(keys::CURRENCY_CODE)
    }

    /// Format an amount the way this venue writes it: `288200` becomes
    /// `"2,882.00 ETB"`, or just `"2,882.00"` before anybody has said what
    /// currency the place trades in.
    pub fn format_money(&self, amount: Money) -> (result: String)
        ensures
            result@ == money_label(amount.minor as int, currency_of(self@)),
    {
        let size: u64 = crate::text::magnitude(amount.minor);
        let mut whole: String = String::new();
        push_nat(&mut whole, size / 100);
        assert(whole@ =~= nat_text((size / 100) as nat));
        let mut out: String = String::new();
        if amount.minor < 0 {
            out.push('-');
        }
        let groups: String = group_thousands(whole.as_str());
        out.append(groups.as_str());
        out.push('.');
        out.push((48 + (size / 10 % 10) as u8) as char);
        out.push((48 + (size % 10) as u8) as char);
        let code: &str = self.currency_code();
        let ghost figure = out@;
        assert(figure =~= (if amount.minor < 0 {
            seq!['-']
        } else {
            Seq::empty()
        }) + grouped(nat_text((size / 100) as nat)) + seq![
            '.',
            digit((size as nat / 10 % 10) as int),
            digit((size as nat % 10) as int),
        ]);
        if !code.is_empty() {
            out.append(" ");
            out.append(code);
        }
        out
    }
}

/// Whether every key stands before every later one.
spec fn key_order(entries: Seq<Entry>) -> bool {
    forall|i: int, j: int|
        0 <= i < j < entries.len() ==> text_before(
            #[trigger] entries[i].key@,
            #[trigger] entries[j].key@,
        )
}

/// What a list of settings in key order says of one key.
proof fn ordered_table(entries: Seq<Entry>, key: Seq<char>)
    requires
        key_order(entries),
    ensures
        table_of(entries).contains_key(key) <==> exists|i: int|
            0 <= i < entries.len() && #[trigger] entries[i].key@ == key,
        forall|i: int|
            0 <= i < entries.len() && #[trigger] entries[i].key@ == key ==> table_of(entries)[key]
                == entries[i].value@,
    decreases entries.len(),
{
    if entries.len() > 0 {
        let front = entries.drop_last();
        let n = entries.len() - 1;
        assert(forall|i: int| 0 <= i < n ==> front[i] == entries[i]);
        ordered_table(front, key);
        assert forall|i: int| 0 <= i < n implies #[trigger] entries[i].key@ != entries[n].key@ by {
            text_before_is_an_order(entries[i].key@, entries[n].key@, entries[n].key@);
        }
        if entries[n].key@ == key {
            assert(entries.last().key@ == key);
        } else if table_of(entries).contains_key(key) {
            let i = choose|i: int| 0 <= i < front.len() && #[trigger] front[i].key@ == key;
            assert(entries[i].key@ == key);
        }
        assert forall|i: int| 0 <= i < entries.len() && #[trigger] entries[i].key@ == key implies
            table_of(entries)[key] == entries[i].value@ by {
            if i < n {
                assert(front[i].key@ == key);
            }
        }
        if exists|i: int| 0 <= i < entries.len() && #[trigger] entries[i].key@ == key {
            let i = choose|i: int| 0 <= i < entries.len() && #[trigger] entries[i].key@ == key;
            if i < n {
                assert(front[i].key@ == key);
            }
        }
    }
}

/// Puts a setting where its key belongs, over one that has the same key.
fn put_entry(entries: &mut Vec<Entry>, new: &Entry)
    requires
        key_order(old(entries)@),
    ensures
        key_order(final(entries)@),
        table_of(final(entries)@) == table_of(old(entries)@).insert(new.key@, new.value@),
{
    let ghost before = entries@;
    let mut at: usize = 0;
    while at < entries.len() && sorts_before(entries[at].key.as_str(), new.key.as_str())
        invariant
            at <= entries.len(),
            entries@ == before,
            forall|i: int| 0 <= i < at ==> text_before(#[trigger] entries@[i].key@, new.key@),
        decreases entries.len() - at,
    {
        at = at + 1;
    }
    if at < entries.len() && same(entries[at].key.as_str(), new.key.as_str()) {
        entries.set(at, new.clone());
        proof {
            assert(forall|i: int|
                0 <= i < before.len() ==> #[trigger] entries@[i].key@ == before[i].key@);
            assert(key_order(entries@));
        }
    } else {
        entries.insert(at, new.clone());
        proof {
            let after = entries@;
            assert(forall|i: int| 0 <= i < at ==> #[trigger] after[i] == before[i]);
            assert(after[at as int] == *new);
            assert(forall|i: int|
                at < i < after.len() ==> #[trigger] after[i] == before[i - 1]);
            assert forall|i: int, j: int| 0 <= i < j < after.len() implies text_before(
                #[trigger] after[i].key@,
                #[trigger] after[j].key@,
            ) by {
                if at < before.len() {
                    text_before_is_an_order(before[at as int].key@, new.key@, new.key@);
                }
                if i == at {
                    assert(after[j] == before[j - 1]);
                    if j - 1 > at {
                        assert(text_before(before[at as int].key@, before[j - 1].key@));
                        text_before_is_an_order(
                            new.key@,
                            before[at as int].key@,
                            before[j - 1].key@,
                        );
                    } else {
                        text_before_is_an_order(new.key@, before[at as int].key@, new.key@);
                    }
                } else if j == at {
                    assert(after[i] == before[i]);
                } else if i < at && j < at {
                    assert(text_before(before[i].key@, before[j].key@));
                } else if i < at {
                    assert(text_before(before[i].key@, before[j - 1].key@));
                } else {
                    assert(text_before(before[i - 1].key@, before[j - 1].key@));
                }
            }
        }
    }
    proof {
        let after = entries@;
        assert(key_order(after));
        let wanted = table_of(before).insert(new.key@, new.value@);
        assert forall|key: Seq<char>|
            #![trigger table_of(after).dom().contains(key)]
            #![trigger table_of(after)[key]]
            table_of(after).dom().contains(key) == wanted.dom().contains(key)
                && (wanted.dom().contains(key) ==> table_of(after)[key] == wanted[key]) by {
            ordered_table(before, key);
            ordered_table(after, key);
            if key == new.key@ {
                assert(after[at as int].key@ == key);
            } else {
                if table_of(after).contains_key(key) {
                    let i = choose|i: int| 0 <= i < after.len() && #[trigger] after[i].key@ == key;
                    if after.len() == before.len() || i < at {
                        assert(before[i].key@ == key);
                        assert(before[i] == after[i]);
                    } else {
                        assert(i != at);
                        assert(before[i - 1].key@ == key);
                        assert(before[i - 1] == after[i]);
                    }
                }
                if table_of(before).contains_key(key) {
                    let i = choose|i: int|
                        0 <= i < before.len() && #[trigger] before[i].key@ == key;
                    if after.len() == before.len() || i < at {
                        assert(after[i].key@ == key);
                    } else {
                        assert(after[i + 1].key@ == key);
                    }
                }
            }
        }
        assert(table_of(after) =~= wanted);
    }
}

/// A text of digits with a comma before every group of three.
fn group_thousands(whole: &str) -> (result: String)
    ensures
        result@ == grouped(whole@),
{
    let chars: Vec<char> = chars_of(whole);
    let n: usize = chars.len();
    let mut out: String = String::new();
    let mut i: usize = 0;
    assert(whole@.take(0) =~= Seq::<char>::empty());
    while i < n
        invariant
            i <= n,
            n == chars.len(),
            chars@ == whole@,
            out@ == partly_grouped(whole@, i as int),
        decreases n - i,
    {
        if i > 0 && (n - i) % 3 == 0 {
            out.push(',');
        }
        out.push(chars[i]);
        i = i + 1;
    }
    proof {
        grouping_meets(whole@, n as int);
        assert(whole@.take(n as int) =~= whole@);
    }
    out
}

/// The first `i` characters of a text, with the commas that belong between
/// them.
spec fn partly_grouped(s: Seq<char>, i: int) -> Seq<char>
    decreases i,
{
    if i <= 0 {
        Seq::empty()
    } else {
        let before = partly_grouped(s, i - 1);
        (if i - 1 > 0 && (s.len() - (i - 1)) % 3 == 0 {
            before.push(',')
        } else {
            before
        }).push(s[i - 1])
    }
}

/// Where a group ends, what was written so far is the grouped text so far.
proof fn grouping_meets(s: Seq<char>, i: int)
    requires
        0 <= i <= s.len(),
        (s.len() - i) % 3 == 0,
    ensures
        partly_grouped(s, i) == grouped(s.take(i)),
    decreases i,
{
    reveal_with_fuel(partly_grouped, 4);
    if i <= 3 {
        assert(partly_grouped(s, i) =~= s.take(i));
    } else {
        grouping_meets(s, i - 3);
        assert(s.take(i).take(i - 3) =~= s.take(i - 3));
        assert(s.take(i).skip(i - 3) =~= seq![s[i - 3], s[i - 2], s[i - 1]]);
        assert(partly_grouped(s, i) =~= partly_grouped(s, i - 3) + seq![','] + seq![
            s[i - 3],
            s[i - 2],
            s[i - 1],
        ]);
    }
}

// ---------------------------------------------------------------------------
// Writing
// ---------------------------------------------------------------------------

/// The kind of value that a setting has.
#[derive(Debug, Clone, Copy, PartialEq, Eq, Structural)]
pub enum ValueType {
    Boolean,
    Rate,
    Integer,
    Time,
    Text,
}

/// The kind of value that a key has; nothing, where this version does not know
/// the key.
pub open spec fn kind_of(key: Seq<char>) -> Option<ValueType> {
    if key == keys::TAX_ENABLED@ || key == keys::TAX_INCLUSIVE@ || key == keys::SERVICE_ENABLED@
        || key == keys::TABS_ASK_CUSTOMER_TIN@ || key == keys::COMPS_ENABLED@ || key
        == keys::PARTIAL_ENABLED@ || key == keys::QR_ENABLED@ || key == keys::PRINT_REPORT@ || key
        == keys::PRINT_CUSTOMER_RECEIPT@ || key == keys::SHOW_COST@ || key
        == keys::SETUP_COMPLETED@ {
        Some(ValueType::Boolean)
    } else if key == keys::TAX_RATE_BP@ || key == keys::SERVICE_RATE_BP@ {
        Some(ValueType::Rate)
    } else if key == keys::TABS_AGE_WARNING_DAYS@ || key == keys::CHARS_PER_LINE@ {
        Some(ValueType::Integer)
    } else if key == keys::DAY_START@ || key == keys::DAY_END@ {
        Some(ValueType::Time)
    } else if key == keys::TABS_REFERENCE_MODE@ || key == keys::BANK_ACCOUNTS@ || key
        == keys::BUSINESS_NAME@ || key == keys::ADDRESS@ || key == keys::PHONE@ || key
        == keys::TIN@ || key == keys::FOOTER@ || key == keys::CURRENCY_CODE@ || key
        == keys::ROUNDING@ {
        Some(ValueType::Text)
    } else {
        None
    }
}

/// The kind of value that a key has, so a write cannot store `"on"` where
/// `"0"` or `"1"` belongs.
pub fn value_type_of(key: &str) -> (result: Option<ValueType>)
    ensures
        result == kind_of(key@),
{
    if same(key, keys::TAX_ENABLED) || same(key, keys::TAX_INCLUSIVE) || same(
        key,
        keys::SERVICE_ENABLED,
    ) || same(key, keys::TABS_ASK_CUSTOMER_TIN) || same(key, keys::COMPS_ENABLED) || same(
        key,
        keys::PARTIAL_ENABLED,
    ) || same(key, keys::QR_ENABLED) || same(key, keys::PRINT_REPORT) || same(
        key,
        keys::PRINT_CUSTOMER_RECEIPT,
    ) || same(key, keys::SHOW_COST) || same(key, keys::SETUP_COMPLETED) {
        Some(ValueType::Boolean)
    } else if same(key, keys::TAX_RATE_BP) || same(key, keys::SERVICE_RATE_BP) {
        Some(ValueType::Rate)
    } else if same(key, keys::TABS_AGE_WARNING_DAYS) || same(key, keys::CHARS_PER_LINE) {
        Some(ValueType::Integer)
    } else if same(key, keys::DAY_START) || same(key, keys::DAY_END) {
        Some(ValueType::Time)
    } else if same(key, keys::TABS_REFERENCE_MODE) || same(key, keys::BANK_ACCOUNTS) || same(
        key,
        keys::BUSINESS_NAME,
    ) || same(key, keys::ADDRESS) || same(key, keys::PHONE) || same(key, keys::TIN) || same(
        key,
        keys::FOOTER,
    ) || same(key, keys::CURRENCY_CODE) || same(key, keys::ROUNDING) {
        Some(ValueType::Text)
    } else {
        None
    }
}

/// A capital ASCII letter.
pub open spec fn is_capital(c: char) -> bool {
    'A' <= c <= 'Z'
}

/// The number in a text, or something else where there is none.
pub open spec fn number_or(s: Seq<char>, otherwise: int) -> int {
    match parsed_number(s) {
        Some(number) => number as int,
        None => otherwise,
    }
}

/// Why a value cannot be stored under a key; nothing, where it can.
pub open spec fn objection(key: Seq<char>, value: Seq<char>, kind: ValueType) -> Option<
    Seq<char>,
> {
    if kind == ValueType::Boolean && value != "0"@ && value != "1"@ {
        Some("expected on or off"@)
    } else if (kind == ValueType::Rate || kind == ValueType::Integer) && (value.len() == 0
        || !all_digits(value)) {
        Some("expected a whole number"@)
    } else if kind == ValueType::Time && read_time(value) is None {
        Some("expected a time like 18:00"@)
    } else if (key == keys::TAX_RATE_BP@ || key == keys::SERVICE_RATE_BP@) && !(0 <= number_or(
        value,
        -1,
    ) <= 10_000) {
        Some("a rate cannot be negative or above 100%"@)
    } else if key == keys::TABS_REFERENCE_MODE@ && value != "TABLE"@ && value != "CUSTOMER_NAME"@
        && value != "CUSTOMER_PHONE"@ && value != "CUSTOM"@ {
        Some("expected TABLE, CUSTOMER_NAME, CUSTOMER_PHONE or CUSTOM"@)
    } else if key == keys::CHARS_PER_LINE@ && !(24 <= number_or(value, 0) <= 96) {
        Some("a receipt is between 24 and 96 characters wide"@)
    } else if key == keys::CURRENCY_CODE@ && value.len() != 0 && !(value.len() == 3 && is_capital(
        value[0],
    ) && is_capital(value[1]) && is_capital(value[2])) {
        Some("expected a three-letter code such as ETB, or nothing"@)
    } else {
        None
    }
}

fn only_digits(value: &str) -> (result: bool)
    ensures
        result == all_digits(value@),
{
    let chars: Vec<char> = chars_of(value);
    let mut i: usize = 0;
    while i < chars.len()
        invariant
            i <= chars.len(),
            chars@ == value@,
            forall|k: int| 0 <= k < i ==> is_digit(#[trigger] value@[k]),
        decreases chars.len() - i,
    {
        let c: char = chars[i];
        if !('0' <= c && c <= '9') {
            assert(!is_digit(value@[i as int]));
            return false;
        }
        i = i + 1;
    }
    true
}

fn three_capitals(value: &str) -> (result: bool)
    ensures
        result == (value@.len() == 3 && is_capital(value@[0]) && is_capital(value@[1])
            && is_capital(value@[2])),
{
    let chars: Vec<char> = chars_of(value);
    chars.len() == 3 && 'A' <= chars[0] && chars[0] <= 'Z' && 'A' <= chars[1] && chars[1] <= 'Z'
        && 'A' <= chars[2] && chars[2] <= 'Z'
}

fn read_or(value: &str, otherwise: i64) -> (result: i64)
    ensures
        result == number_or(value@, otherwise as int),
{
    match parse_number(value) {
        Some(number) => number,
        None => otherwise,
    }
}

/// Reject a value in a sentence.
fn check_value(key: &str, value: &str, kind: ValueType) -> (result: Result<(), SettingsError>)
    ensures
        match objection(key@, value@, kind) {
            None => result is Ok,
            Some(why) => result matches Err(error) && error@ == (SettingsWhy::Invalid {
                key: key@,
                value: value@,
                why,
            }),
        },
{
    let why: &'static str = if kind == ValueType::Boolean && !same(value, "0") && !same(
        value,
        "1",
    ) {
        "expected on or off"
    } else if (kind == ValueType::Rate || kind == ValueType::Integer) && (value.is_empty()
        || !only_digits(value)) {
        "expected a whole number"
    } else if kind == ValueType::Time && TimeOfDay::parse(value).is_err() {
        "expected a time like 18:00"
    } else if (same(key, keys::TAX_RATE_BP) || same(key, keys::SERVICE_RATE_BP)) && !(0 <= read_or(
        value,
        -1,
    ) && read_or(value, -1) <= 10_000) {
        "a rate cannot be negative or above 100%"
    } else if same(key, keys::TABS_REFERENCE_MODE) && !same(value, "TABLE") && !same(
        value,
        "CUSTOMER_NAME",
    ) && !same(value, "CUSTOMER_PHONE") && !same(value, "CUSTOM") {
        "expected TABLE, CUSTOMER_NAME, CUSTOMER_PHONE or CUSTOM"
    } else if same(key, keys::CHARS_PER_LINE) && !(24 <= read_or(value, 0) && read_or(value, 0)
        <= 96) {
        "a receipt is between 24 and 96 characters wide"
    } else if same(key, keys::CURRENCY_CODE) && !value.is_empty() && !three_capitals(value) {
        "expected a three-letter code such as ETB, or nothing"
    } else {
        return Ok(());
    };
    Err(SettingsError::Invalid { key: key.to_owned(), value: value.to_owned(), why })
}

/// Whether the settings table has that key.
pub open spec fn has_key(rows: Seq<SettingRow>, key: Seq<char>) -> bool {
    settings_map(rows).contains_key(key)
}

/// Why a setting cannot be written; nothing, where it can.
pub open spec fn put_refusal(rows: Seq<SettingRow>, key: Seq<char>, value: Seq<char>) -> Option<
    SettingsWhy,
> {
    match kind_of(key) {
        None => Some(SettingsWhy::UnknownKey(key)),
        Some(kind) => match objection(key, value, kind) {
            Some(why) => Some(SettingsWhy::Invalid { key, value, why }),
            None => if has_key(rows, key) {
                None
            } else {
                Some(SettingsWhy::UnknownKey(key))
            },
        },
    }
}

/// What becomes of one row when a setting is written.
pub open spec fn row_changed(
    before: SettingRow,
    after: SettingRow,
    key: Seq<char>,
    value: Seq<char>,
    staff_id: Option<i64>,
    at: i64,
) -> bool {
    if before.key@ == key {
        &&& after.key@ == key
        &&& after.value@ == value
        &&& after.updated_at == at
        &&& after.updated_by == staff_id
    } else {
        after == before
    }
}

/// Whether `after` is `before` with that setting changed, and no other.
pub open spec fn setting_changed(
    before: Seq<SettingRow>,
    after: Seq<SettingRow>,
    key: Seq<char>,
    value: Seq<char>,
    staff_id: Option<i64>,
    at: i64,
) -> bool {
    &&& after.len() == before.len()
    &&& forall|i: int|
        0 <= i < before.len() ==> row_changed(
            before[i],
            #[trigger] after[i],
            key,
            value,
            staff_id,
            at,
        )
}

/// Write one setting. Returns the value it replaced, so the caller can put the
/// before-and-after into the audit log.
pub fn put(
    db: &mut Store,
    key: &str,
    value: &str,
    staff_id: Option<i64>,
    at: i64,
) -> (result: Result<String, SettingsError>)
    ensures
        ledgers_kept(*old(db), *final(db)),
        match result {
            Ok(previous) => {
                &&& put_refusal(old(db).settings@, key@, value@) is None
                &&& previous@ == setting(settings_map(old(db).settings@), key@)
                &&& setting_changed(
                    old(db).settings@,
                    final(db).settings@,
                    key@,
                    value@,
                    staff_id,
                    at,
                )
                &&& *final(db) == (Store { settings: final(db).settings, ..*old(db) })
            },
            Err(error) => {
                &&& *final(db) == *old(db)
                &&& put_refusal(old(db).settings@, key@, value@) == Some(error@)
            },
        },
{
    let kind: ValueType = match value_type_of(key) {
        Some(kind) => kind,
        None => {
            return Err(SettingsError::UnknownKey(key.to_owned()));
        },
    };
    match check_value(key, value, kind) {
        Ok(_) => {},
        Err(error) => {
            return Err(error);
        },
    }
    let ghost before = db.settings@;
    let mut previous: Option<String> = None;
    let mut i: usize = 0;
    assert(before.take(0) =~= Seq::<SettingRow>::empty());
    while i < db.settings.len()
        invariant
            i <= db.settings.len(),
            *db == *old(db),
            before == db.settings@,
            match previous {
                Some(text) => has_key(before.take(i as int), key@) && text@ == settings_map(
                    before.take(i as int),
                )[key@],
                None => !has_key(before.take(i as int), key@),
            },
        decreases db.settings.len() - i,
    {
        assert(before.take(i + 1).drop_last() =~= before.take(i as int));
        assert(before.take(i + 1).last() == before[i as int]);
        if same(db.settings[i].key.as_str(), key) {
            previous = Some(db.settings[i].value.clone());
        }
        i = i + 1;
    }
    assert(before.take(before.len() as int) =~= before);
    let replaced: String = match previous {
        Some(text) => text,
        None => {
            return Err(SettingsError::UnknownKey(key.to_owned()));
        },
    };
    let mut j: usize = 0;
    while j < db.settings.len()
        invariant
            j <= db.settings.len(),
            db.settings.len() == before.len(),
            before == old(db).settings@,
            *db == (Store { settings: db.settings, ..*old(db) }),
            forall|k: int|
                0 <= k < j ==> row_changed(
                    before[k],
                    #[trigger] db.settings@[k],
                    key@,
                    value@,
                    staff_id,
                    at,
                ),
            forall|k: int| j <= k < before.len() ==> #[trigger] db.settings@[k] == before[k],
        decreases db.settings.len() - j,
    {
        if same(db.settings[j].key.as_str(), key) {
            db.settings.set(
                j,
                SettingRow {
                    key: key.to_owned(),
                    value: value.to_owned(),
                    updated_at: at,
                    updated_by: staff_id,
                },
            );
        }
        j = j + 1;
    }
    Ok(replaced)
}

/// A setting reads back as what was written, and no other setting moves.
pub proof fn a_setting_reads_back(
    before: Seq<SettingRow>,
    after: Seq<SettingRow>,
    key: Seq<char>,
    value: Seq<char>,
    staff_id: Option<i64>,
    at: i64,
    other: Seq<char>,
)
    requires
        put_refusal(before, key, value) is None,
        setting_changed(before, after, key, value, staff_id, at),
    ensures
        settings_map(after) == settings_map(before).insert(key, value),
        setting(settings_map(after), key) == value,
        other != key ==> setting(settings_map(after), other) == setting(
            settings_map(before),
            other,
        ),
{
    settings_move_together(before, after, key, value, staff_id, at, before.len() as int);
    assert(before.take(before.len() as int) =~= before);
    assert(after.take(before.len() as int) =~= after);
}

proof fn settings_move_together(
    before: Seq<SettingRow>,
    after: Seq<SettingRow>,
    key: Seq<char>,
    value: Seq<char>,
    staff_id: Option<i64>,
    at: i64,
    n: int,
)
    requires
        setting_changed(before, after, key, value, staff_id, at),
        0 <= n <= before.len(),
    ensures
        has_key(before.take(n), key) ==> settings_map(after.take(n)) == settings_map(
            before.take(n),
        ).insert(key, value),
        !has_key(before.take(n), key) ==> settings_map(after.take(n)) == settings_map(
            before.take(n),
        ),
    decreases n,
{
    if n == 0 {
        assert(after.take(0) =~= Seq::<SettingRow>::empty());
        assert(before.take(0) =~= Seq::<SettingRow>::empty());
    } else {
        settings_move_together(before, after, key, value, staff_id, at, n - 1);
        let b = before.take(n);
        let a = after.take(n);
        assert(b.drop_last() =~= before.take(n - 1));
        assert(a.drop_last() =~= after.take(n - 1));
        assert(b.last() == before[n - 1]);
        assert(a.last() == after[n - 1]);
        if before[n - 1].key@ == key {
            assert(settings_map(a) =~= settings_map(b).insert(key, value));
        } else {
            assert(after[n - 1] == before[n - 1]);
            if has_key(b, key) {
                assert(settings_map(a) =~= settings_map(b).insert(key, value));
            }
        }
    }
}

} // verus!
