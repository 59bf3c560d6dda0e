//! The settings of the hacks and how they are kept: in the game's `config.ini` and
//! `locale.ini`, and in a small key-value store.
use vstd::prelude::*;
use crate::event::{split_pieces, split_terminator_pieces, pieces_at, terminated_pieces};
use crate::text::owned;
use ini::Ini;
use pickledb::PickleDb;

verus! {

/// The line `piece` of a text, less the `\r` of a `\r\n` line ending when the line
/// was ended by a newline.
pub open spec fn line_text(piece: Seq<char>, terminated: bool) -> Seq<char> {
    if terminated && piece.len() > 0 && piece.last() == '\r' {
        piece.drop_last()
    } else {
        piece
    }
}

/// The lines of `s`, as `str::lines` gives them: split at `\n`, a `\r` before it
/// dropped, and no empty line after a final newline.
pub open spec fn text_lines(s: Seq<char>) -> Seq<Seq<char>> {
    let all = split_pieces(s, '\n');
    let lines = split_terminator_pieces(s, '\n');
    Seq::new(lines.len(), |k: int| line_text(lines[k], k + 1 < all.len()))
}

/// A line that starts with `//`, a comment that the INI parser refuses.
pub open spec fn is_comment_line(line: Seq<char>) -> bool {
    line.len() >= 2 && line[0] == '/' && line[1] == '/'
}

/// The lines in `lines` that are no comment, each followed by a newline.
pub open spec fn kept_lines(lines: Seq<Seq<char>>) -> Seq<char>
    decreases lines.len(),
{
    if lines.len() == 0 {
        Seq::empty()
    } else {
        kept_lines(lines.drop_last()) + if is_comment_line(lines.last()) {
            Seq::<char>::empty()
        } else {
            lines.last().push('\n')
        }
    }
}

/// The text `s` without its comment lines: each other line followed by a newline.
pub open spec fn without_comment_lines(s: Seq<char>) -> Seq<char> {
    kept_lines(text_lines(s))
}

/// Removes the comment lines (those that start with `//`) from the text of
/// `locale.ini`, which the INI parser would refuse; every other line is kept and
/// ended by a newline.
pub fn strip_comment_lines(text: &str) -> (r: String)
    ensures
        r@ == without_comment_lines(text@),
{
    let n = text.unicode_len();
    let ranges = terminated_pieces(text, '\n');
    let ghost all = split_pieces(text@, '\n');
    let ghost lines = split_terminator_pieces(text@, '\n');
    let ghost tl = text_lines(text@);
    proof {
        reveal_strlit("\n");
    }
    let mut out = String::new();
    let mut k: usize = 0;
    while k < ranges.len()
        invariant
            n == text@.len(),
            pieces_at(text@, ranges@) == lines,
            all == split_pieces(text@, '\n'),
            lines == split_terminator_pieces(text@, '\n'),
            tl == text_lines(text@),
            forall|q: int|
                #![trigger ranges@[q]]
                0 <= q < ranges@.len() ==> ranges@[q].0 <= ranges@[q].1 <= text@.len(),
            forall|q: int|
                #![trigger ranges@[q]]
                0 <= q < ranges@.len() ==> (ranges@[q].1 < text@.len() <==> q + 1 < all.len()),
            0 <= k <= ranges@.len(),
            out@ == kept_lines(tl.subrange(0, k as int)),
        decreases ranges@.len() - k,
    {
        let (a, b) = ranges[k];
        let ghost piece = lines[k as int];
        assert(piece == text@.subrange(a as int, b as int));
        let terminated = b < n;
        let end = if terminated && b > a && text.get_char(b - 1) == '\r' {
            b - 1
        } else {
            b
        };
        let line = text.substring_char(a, end);
        assert(line@ == tl[k as int]) by {
            if terminated && b > a && text@[b - 1] == '\r' {
                assert(text@.subrange(a as int, (b - 1) as int) =~= piece.drop_last());
            }
        }
        let comment = end - a >= 2 && line.get_char(0) == '/' && line.get_char(1) == '/';
        assert(tl.subrange(0, k + 1).drop_last() =~= tl.subrange(0, k as int));
        assert(tl.subrange(0, k + 1).last() == tl[k as int]);
        assert(comment == is_comment_line(tl[k as int]));
        let ghost before = out@;
        if !comment {
            proof {
                reveal_strlit("\n");
            }
            out.append(line);
            out.append("\n");
            assert(out@ =~= before + tl[k as int].push('\n'));
        } else {
            assert(out@ =~= before + Seq::<char>::empty());
        }
        k = k + 1;
    }
    assert(tl.subrange(0, ranges@.len() as int) =~= tl);
    out
}

/// The INI document type of the `ini` crate.
#[verifier::external_type_specification]
#[verifier::external_body]
pub struct ExIni(ini::Ini);

/// The error of the `ini` crate's parser.
#[verifier::external_type_specification]
#[verifier::external_body]
pub struct ExIniParseError(ini::ParseError);

/// The key-value store of the `pickledb` crate.
#[verifier::external_type_specification]
#[verifier::external_body]
pub struct ExPickleDb(pickledb::PickleDb);

/// The error of the `pickledb` crate.
#[verifier::external_type_specification]
#[verifier::external_body]
pub struct ExPickleDbError(pickledb::error::Error);

/// What an INI document holds: for each section (`None` for the general one) and
/// key, the value that `Ini::get_from` gives for them (the first value of the key in
/// the first section of that name).
pub uninterp spec fn ini_values(ini: Ini) -> Map<(Option<Seq<char>>, Seq<char>), Seq<char>>;

/// All values of each key in the first section of each name (`None` for the general
/// section), in order, as `Properties::get_all` gives them; a key that the first section
/// of that name does not hold is not in the map.
pub uninterp spec fn ini_all_values(ini: Ini) -> Map<(Option<Seq<char>>, Seq<char>), Seq<Seq<char>>>;

/// What `Ini::load_from_str` makes of a text: the values of the document it parses,
/// or nothing when the text is refused.
pub uninterp spec fn ini_parsed(text: Seq<char>) -> Option<Map<(Option<Seq<char>>, Seq<char>), Seq<char>>>;

/// `ini::Ini::load_from_str`: the document is `Ok` exactly when the text parses, and
/// then holds the values that the parse of the text gives.
#[verifier::external_body]
fn ini_load_from_str(text: &str) -> (r: Result<Ini, ini::ParseError>)
    ensures
        match r {
            Ok(doc) => ini_parsed(text@) == Some(ini_values(doc)),
            Err(_) => ini_parsed(text@) is None,
        },
{
    Ini::load_from_str(text)
}

/// `ini::Ini::get_from_or` with a named section: the value of `key` in `section`, or
/// `default` when there is none.
#[verifier::external_body]
fn ini_get_from_or(doc: &Ini, section: &str, key: &str, default: &str) -> (r: String)
    ensures
        r@ == ini_value_or(ini_values(*doc), section@, key@, default@),
{
    doc.get_from_or(Some(section), key, default).to_string()
}

/// `ini::Ini::set_to` with a named section: in the first section of that name (made if
/// there was none), `key` holds `value` afterwards as its only value (all earlier values
/// removed); every other key of every first section keeps all its values. Sections that
/// repeat a name before them are not described.
#[verifier::external_body]
fn ini_set_to(doc: &mut Ini, section: &str, key: &str, value: &str)
    ensures
        ini_values(*final(doc)) == ini_values(*old(doc)).insert((Some(section@), key@), value@),
        ini_all_values(*final(doc)) == ini_all_values(*old(doc)).insert(
            (Some(section@), key@),
            seq![value@],
        ),
{
    doc.set_to(Some(section), key.to_string(), value.to_string())
}

/// The value of `key` in `section` of a document, or `default`.
pub open spec fn ini_value_or(
    values: Map<(Option<Seq<char>>, Seq<char>), Seq<char>>,
    section: Seq<char>,
    key: Seq<char>,
    default: Seq<char>,
) -> Seq<char> {
    if values.dom().contains((Some(section), key)) {
        values[(Some(section), key)]
    } else {
        default
    }
}

/// What a key-value store holds: the serialized value of each key.
pub uninterp spec fn db_entries(db: PickleDb) -> Map<Seq<char>, Seq<u8>>;

/// The store keeps its data in memory, serialized as JSON, and writes it to its file
/// only when asked to (it was made with `SerializationMethod::Json` and
/// `PickleDbDumpPolicy::DumpUponRequest`).
pub uninterp spec fn db_in_memory_json(db: PickleDb) -> bool;


/// The JSON text of a boolean, as bytes.
pub open spec fn json_bool(b: bool) -> Seq<u8> {
    if b {
        seq![0x74u8, 0x72u8, 0x75u8, 0x65u8]
    } else {
        seq![0x66u8, 0x61u8, 0x6cu8, 0x73u8, 0x65u8]
    }
}

/// `pickledb::PickleDb::new` with the JSON serialization and the dump-upon-request
/// policy: an empty store that keeps its data in memory (no file is touched).
#[verifier::external_body]
fn db_new_in_memory(path: &str) -> (r: PickleDb)
    ensures
        db_entries(r).dom().is_empty(),
        db_in_memory_json(r),
{
    PickleDb::new(path, pickledb::PickleDbDumpPolicy::DumpUponRequest, pickledb::SerializationMethod::Json)
}

/// `pickledb::PickleDb::set` of a boolean, on a store that keeps its data in memory
/// (a store that dumps on changes writes a file there, which can fail or panic): the
/// call succeeds and the key holds the JSON text of the value afterwards, other keys
/// unchanged; the store keeps its kind.
#[verifier::external_body]
fn db_set_bool(db: &mut PickleDb, key: &str, value: bool) -> (r: Result<(), pickledb::error::Error>)
    requires
        db_in_memory_json(*old(db)),
    ensures
        db_in_memory_json(*final(db)),
        r is Ok,
        db_entries(*final(db)) == db_entries(*old(db)).insert(key@, json_bool(value)),
{
    db.set(key, &value)
}

/// `pickledb::PickleDb::get` of a boolean: nothing for a key the store does not hold;
/// the value for a key that holds the JSON text of a boolean. (The call reads the held
/// bytes as UTF-8 and panics when they are not.)
#[verifier::external_body]
fn db_get_bool(db: &PickleDb, key: &str) -> (r: Option<bool>)
    requires
        db_entries(*db).dom().contains(key@) ==> vstd::utf8::valid_utf8(db_entries(*db)[key@]),
    ensures
        !db_entries(*db).dom().contains(key@) ==> r is None,
        forall|b: bool|
            db_entries(*db).dom().contains(key@) && db_entries(*db)[key@] == json_bool(b) ==> r
                == Some(b),
{
    db.get::<bool>(key)
}

proof fn lemma_ascii_valid_utf8(bytes: Seq<u8>)
    requires
        forall|i: int| 0 <= i < bytes.len() ==> bytes[i] < 0x80,
    ensures
        vstd::utf8::valid_utf8(bytes),
    decreases bytes.len(),
{
    if bytes.len() != 0 {
        let b = bytes[0];
        assert((b & 0x7F) <= 0x7F) by (bit_vector);
        assert(vstd::utf8::valid_first_scalar(bytes));
        let rest = vstd::utf8::pop_first_scalar(bytes);
        assert(rest =~= bytes.subrange(1, bytes.len() as int));
        lemma_ascii_valid_utf8(rest);
    }
}

/// One setting, by key.
pub struct Setting<T> {
    pub key: String,
    pub value: T,
}

/// The switches of the hacks.
#[derive(Debug, PartialEq, Eq, Structural)]
pub struct Settings {
    pub alt_tab: bool,
    pub blacklist: bool,
    pub skip_launcher: bool,
    pub skip_language_selection: bool,
}

/// Where the games are installed.
pub const ORIGIN_GAMES_DIRECTORY: &'static str = "D:\\Origin Games";
/// The file of the settings store.
pub const DB_NAME: &'static str = "config.db";

/// The section and key of the launcher switch in `config.ini`.
pub const GENERAL_SECTION: &'static str = "__General__";
pub const AUTO_LAUNCH: &'static str = "AUTO_LAUNCH";
/// The section and key of the language selection switch in `locale.ini`.
pub const LOCALE_SECTION: &'static str = "LOCALE";
pub const USE_LANGUAGE_SELECT: &'static str = "USE_LANGUAGE_SELECT";

/// The text `s` without a leading byte order mark (U+FEFF).
pub open spec fn without_bom(s: Seq<char>) -> Seq<char> {
    if s.len() > 0 && s[0] == '\u{feff}' {
        s.drop_first()
    } else {
        s
    }
}

/// The value of the launcher switch in a `config.ini` (off when it is missing).
pub open spec fn auto_launch_of(config: Map<(Option<Seq<char>>, Seq<char>), Seq<char>>) -> Seq<char> {
    ini_value_or(config, "__General__"@, "AUTO_LAUNCH"@, "0"@)
}

/// The value of the language selection switch in a `locale.ini` (off when it is missing).
pub open spec fn use_language_select_of(locale: Map<(Option<Seq<char>>, Seq<char>), Seq<char>>) -> Seq<char> {
    ini_value_or(locale, "LOCALE"@, "USE_LANGUAGE_SELECT"@, "0"@)
}

/// The settings that the game's files give: the alt-tab and blacklist hacks on, the
/// launcher skipped when `AUTO_LAUNCH` is "0", the language selection skipped when
/// `USE_LANGUAGE_SELECT` is "0".
pub open spec fn settings_from_values(auto_launch: Seq<char>, use_language_select: Seq<char>) -> Settings {
    Settings {
        alt_tab: true,
        blacklist: true,
        skip_launcher: auto_launch == "0"@,
        skip_language_selection: use_language_select == "0"@,
    }
}

/// `entries` hold, under `key`, the JSON text of the boolean `b`.
pub open spec fn holds_bool(entries: Map<Seq<char>, Seq<u8>>, key: Seq<char>, b: bool) -> bool {
    entries.dom().contains(key) && entries[key] == json_bool(b)
}

/// `entries` hold the four switches of `s`, each under its name.
pub open spec fn stores(entries: Map<Seq<char>, Seq<u8>>, s: Settings) -> bool {
    &&& holds_bool(entries, "alt_tab"@, s.alt_tab)
    &&& holds_bool(entries, "blacklist"@, s.blacklist)
    &&& holds_bool(entries, "skip_launcher"@, s.skip_launcher)
    &&& holds_bool(entries, "skip_language_selection"@, s.skip_language_selection)
}

/// `entries` hold a value under each of the four switches' names.
pub open spec fn switches_present(entries: Map<Seq<char>, Seq<u8>>) -> bool {
    &&& entries.dom().contains("alt_tab"@)
    &&& entries.dom().contains("blacklist"@)
    &&& entries.dom().contains("skip_launcher"@)
    &&& entries.dom().contains("skip_language_selection"@)
}

/// The value held under `key`, if any, is UTF-8 text (the store reads it as text).
pub open spec fn readable(entries: Map<Seq<char>, Seq<u8>>, key: Seq<char>) -> bool {
    entries.dom().contains(key) ==> vstd::utf8::valid_utf8(entries[key])
}

/// The values held under the four switches' names are UTF-8 text.
pub open spec fn switches_readable(entries: Map<Seq<char>, Seq<u8>>) -> bool {
    &&& readable(entries, "alt_tab"@)
    &&& readable(entries, "blacklist"@)
    &&& readable(entries, "skip_launcher"@)
    &&& readable(entries, "skip_language_selection"@)
}

/// `entries` after the four switches of `s` were written into them.
pub open spec fn with_settings(entries: Map<Seq<char>, Seq<u8>>, s: Settings) -> Map<Seq<char>, Seq<u8>> {
    entries.insert("alt_tab"@, json_bool(s.alt_tab)).insert("blacklist"@, json_bool(s.blacklist)).insert(
        "skip_launcher"@,
        json_bool(s.skip_launcher),
    ).insert("skip_language_selection"@, json_bool(s.skip_language_selection))
}

fn is_zero(s: &str) -> (r: bool)
    ensures
        r == (s@ == "0"@),
{
    proof {
        reveal_strlit("0");
    }
    let n = s.unicode_len();
    if n != 1 {
        return false;
    }
    let c = s.get_char(0);
    if c == '0' {
        assert(s@ =~= "0"@);
        true
    } else {
        false
    }
}

proof fn lemma_json_bool_utf8(b: bool)
    ensures
        vstd::utf8::valid_utf8(json_bool(b)),
{
    lemma_ascii_valid_utf8(json_bool(b));
}

fn path_parts(last: &str, middle: &str) -> (r: Vec<String>)
    ensures
        r@.map_values(|p: String| p@) == seq![ORIGIN_GAMES_DIRECTORY@, "FIFA 19"@, middle@, last@],
{
    let mut v: Vec<String> = Vec::new();
    v.push(owned(ORIGIN_GAMES_DIRECTORY));
    v.push(owned("FIFA 19"));
    v.push(owned(middle));
    v.push(owned(last));
    assert(v@.map_values(|p: String| p@) =~= seq![ORIGIN_GAMES_DIRECTORY@, "FIFA 19"@, middle@, last@]);
    v
}

impl Settings {
    /// The path of the game's `config.ini`, part by part.
    pub fn get_config_ini_path() -> (r: Vec<String>)
        ensures
            r@.map_values(|p: String| p@) == seq![ORIGIN_GAMES_DIRECTORY@, "FIFA 19"@, "FIFASetup"@, "config.ini"@],
    {
        path_parts("config.ini", "FIFASetup")
    }

    /// The path of the game's `locale.ini`, part by part.
    pub fn get_locale_ini_path() -> (r: Vec<String>)
        ensures
            r@.map_values(|p: String| p@) == seq![ORIGIN_GAMES_DIRECTORY@, "FIFA 19"@, "Data"@, "locale.ini"@],
    {
        path_parts("locale.ini", "Data")
    }

    /// The path of the backup of the game's `locale.ini`, part by part.
    pub fn get_locale_ini_bak_path() -> (r: Vec<String>)
        ensures
            r@.map_values(|p: String| p@) == seq![ORIGIN_GAMES_DIRECTORY@, "FIFA 19"@, "Data"@, "locale.ini.bak"@],
    {
        path_parts("locale.ini.bak", "Data")
    }

    /// The document of `locale.ini` from its text: the comment lines removed, then
    /// parsed; `None` when the parser refuses the rest.
    pub fn load_locale_ini(text: &str) -> (r: Option<Ini>)
        ensures
            match ini_parsed(without_comment_lines(text@)) {
                Some(values) => r is Some && ini_values(r->Some_0) == values,
                None => r is None,
            },
    {
        let cleaned = strip_comment_lines(text);
        match ini_load_from_str(cleaned.as_str()) {
            Ok(doc) => Some(doc),
            Err(_) => None,
        }
    }

    /// The document of `config.ini` from its text: a leading byte order mark dropped,
    /// then parsed; `None` when the parser refuses it.
    pub fn load_config_ini(text: &str) -> (r: Option<Ini>)
        ensures
            match ini_parsed(without_bom(text@)) {
                Some(values) => r is Some && ini_values(r->Some_0) == values,
                None => r is None,
            },
    {
        let n = text.unicode_len();
        let parsed = if n > 0 && text.get_char(0) == '\u{feff}' {
            let rest = text.substring_char(1, n);
            assert(rest@ =~= without_bom(text@));
            ini_load_from_str(rest)
        } else {
            ini_load_from_str(text)
        };
        match parsed {
            Ok(doc) => Some(doc),
            Err(_) => None,
        }
    }

    /// The settings that the game's `config.ini` and `locale.ini` give, from their
    /// texts; they are recorded in a store and read back from it. `None` when one of
    /// the texts does not parse.
    pub fn new(config_text: &str, locale_text: &str) -> (r: Option<Settings>)
        ensures
            match (ini_parsed(without_bom(config_text@)), ini_parsed(without_comment_lines(locale_text@))) {
                (Some(config), Some(locale)) => r == Some(
                    settings_from_values(auto_launch_of(config), use_language_select_of(locale)),
                ),
                _ => r is None,
            },
    {
        let config = match Settings::load_config_ini(config_text) {
            Some(doc) => doc,
            None => return None,
        };
        let locale = match Settings::load_locale_ini(locale_text) {
            Some(doc) => doc,
            None => return None,
        };
        let auto_launch = ini_get_from_or(&config, GENERAL_SECTION, AUTO_LAUNCH, "0");
        let use_language_select = ini_get_from_or(&locale, LOCALE_SECTION, USE_LANGUAGE_SELECT, "0");
        let skip_launcher = is_zero(auto_launch.as_str());
        let skip_language_selection = is_zero(use_language_select.as_str());
        let recorded = Settings {
            alt_tab: true,
            blacklist: true,
            skip_launcher,
            skip_language_selection,
        };
        let mut db = db_new_in_memory(DB_NAME);
        let ghost before = db_entries(db);
        Settings::set_all(&mut db, &recorded);
        proof {
            law_get_all_reads_back_set_all(before, recorded);
        }
        let r = Settings::get_all(&db);
        assert(stores(db_entries(db), recorded));
        r
    }

    /// Writes the four switches into the store `db`, which keeps its data in memory,
    /// each under its name: it holds them afterwards, other keys unchanged.
    pub fn set_all(db: &mut PickleDb, settings: &Settings)
        requires
            db_in_memory_json(*old(db)),
        ensures
            db_in_memory_json(*final(db)),
            db_entries(*final(db)) == with_settings(db_entries(*old(db)), *settings),
    {
        proof {
            reveal_strlit("alt_tab");
            reveal_strlit("blacklist");
            reveal_strlit("skip_launcher");
            reveal_strlit("skip_language_selection");
        }
        let _ = db_set_bool(db, "alt_tab", settings.alt_tab);
        let _ = db_set_bool(db, "blacklist", settings.blacklist);
        let _ = db_set_bool(db, "skip_launcher", settings.skip_launcher);
        let _ = db_set_bool(db, "skip_language_selection", settings.skip_language_selection);
    }

    /// Reads the four switches from the store `db`: `None` when one of them is
    /// missing; the switches when each holds a boolean.
    pub fn get_all(db: &PickleDb) -> (r: Option<Settings>)
        requires
            switches_readable(db_entries(*db)),
        ensures
            forall|s: Settings| stores(db_entries(*db), s) ==> r == Some(s),
            !switches_present(db_entries(*db)) ==> r is None,
    {
        proof {
            reveal_strlit("alt_tab");
            reveal_strlit("blacklist");
            reveal_strlit("skip_launcher");
            reveal_strlit("skip_language_selection");
        }
        let a = db_get_bool(db, "alt_tab");
        let b = db_get_bool(db, "blacklist");
        let c = db_get_bool(db, "skip_launcher");
        let d = db_get_bool(db, "skip_language_selection");
        match (a, b, c, d) {
            (Some(a), Some(b), Some(c), Some(d)) => Some(
                Settings { alt_tab: a, blacklist: b, skip_launcher: c, skip_language_selection: d },
            ),
            _ => None,
        }
    }

    /// Reads one switch from the store `db`: `None` when it is missing; its value when
    /// it holds a boolean.
    pub fn get_single(db: &PickleDb, key: &str) -> (r: Option<bool>)
        requires
            db_entries(*db).dom().contains(key@) ==> vstd::utf8::valid_utf8(db_entries(*db)[key@]),
        ensures
            !db_entries(*db).dom().contains(key@) ==> r is None,
            forall|b: bool| holds_bool(db_entries(*db), key@, b) ==> r == Some(b),
    {
        db_get_bool(db, key)
    }

    /// Writes one switch into the store `db`, which keeps its data in memory: it holds
    /// the JSON text of `value` under `key` afterwards, other keys unchanged.
    pub fn set_single(db: &mut PickleDb, key: &str, value: bool)
        requires
            db_in_memory_json(*old(db)),
        ensures
            db_in_memory_json(*final(db)),
            db_entries(*final(db)) == db_entries(*old(db)).insert(key@, json_bool(value)),
    {
        let _ = db_set_bool(db, key, value);
    }

    /// The value that applying these settings writes to `AUTO_LAUNCH` in `config.ini`:
    /// "1" when the launcher is skipped, nothing otherwise.
    pub fn launcher_update(&self) -> (r: Option<String>)
        ensures
            self.skip_launcher ==> r is Some && r->Some_0@ == "1"@,
            !self.skip_launcher ==> r is None,
    {
        if self.skip_launcher {
            let v = if self.skip_launcher { owned("1") } else { owned("0") };
            Some(v)
        } else {
            None
        }
    }

    /// The value that applying these settings writes to `USE_LANGUAGE_SELECT` in
    /// `locale.ini`: "0" when the language selection is skipped, nothing otherwise.
    pub fn language_selection_update(&self) -> (r: Option<String>)
        ensures
            self.skip_language_selection ==> r is Some && r->Some_0@ == "0"@,
            !self.skip_language_selection ==> r is None,
    {
        if self.skip_language_selection {
            let v = if self.skip_language_selection { owned("0") } else { owned("1") };
            Some(v)
        } else {
            None
        }
    }

    /// Writes the launcher switch's new value into the document of `config.ini`.
    pub fn apply_to_config(config: &mut Ini, auto_launch: &str)
        ensures
            ini_values(*final(config)) == ini_values(*old(config)).insert(
                (Some("__General__"@), "AUTO_LAUNCH"@),
                auto_launch@,
            ),
            ini_all_values(*final(config)) == ini_all_values(*old(config)).insert(
                (Some("__General__"@), "AUTO_LAUNCH"@),
                seq![auto_launch@],
            ),
    {
        ini_set_to(config, GENERAL_SECTION, AUTO_LAUNCH, auto_launch)
    }

    /// Writes the language selection switch's new value into the document of `locale.ini`.
    pub fn apply_to_locale(locale: &mut Ini, use_language_select: &str)
        ensures
            ini_values(*final(locale)) == ini_values(*old(locale)).insert(
                (Some("LOCALE"@), "USE_LANGUAGE_SELECT"@),
                use_language_select@,
            ),
            ini_all_values(*final(locale)) == ini_all_values(*old(locale)).insert(
                (Some("LOCALE"@), "USE_LANGUAGE_SELECT"@),
                seq![use_language_select@],
            ),
    {
        ini_set_to(locale, LOCALE_SECTION, USE_LANGUAGE_SELECT, use_language_select)
    }
}

/// Applying settings that skip the language selection to `locale.ini` and reading
/// the settings back from it gives settings that skip it too.
pub proof fn law_language_selection_survives_apply(
    config: Map<(Option<Seq<char>>, Seq<char>), Seq<char>>,
    locale: Map<(Option<Seq<char>>, Seq<char>), Seq<char>>,
)
    ensures
        settings_from_values(
            auto_launch_of(config),
            use_language_select_of(locale.insert((Some("LOCALE"@), "USE_LANGUAGE_SELECT"@), "0"@)),
        ).skip_language_selection,
{
    let updated = locale.insert((Some("LOCALE"@), "USE_LANGUAGE_SELECT"@), "0"@);
    assert(updated.dom().contains((Some("LOCALE"@), "USE_LANGUAGE_SELECT"@)));
}

/// Applying settings that skip the launcher writes "1" to `AUTO_LAUNCH`, and the
/// settings read back from that `config.ini` do not skip the launcher.
pub proof fn law_launcher_apply_reads_back_not_skipped(
    config: Map<(Option<Seq<char>>, Seq<char>), Seq<char>>,
    locale: Map<(Option<Seq<char>>, Seq<char>), Seq<char>>,
)
    ensures
        !settings_from_values(
            auto_launch_of(config.insert((Some("__General__"@), "AUTO_LAUNCH"@), "1"@)),
            use_language_select_of(locale),
        ).skip_launcher,
{
    let updated = config.insert((Some("__General__"@), "AUTO_LAUNCH"@), "1"@);
    assert(updated.dom().contains((Some("__General__"@), "AUTO_LAUNCH"@)));
    reveal_strlit("1");
    reveal_strlit("0");
    assert("1"@[0] != "0"@[0]);
}

/// What `set_all` writes, `get_all` reads back: after the four switches of `s` were
/// written into a store, whatever it held before, it holds exactly them, readable.
pub proof fn law_get_all_reads_back_set_all(entries: Map<Seq<char>, Seq<u8>>, s: Settings)
    ensures
        stores(with_settings(entries, s), s),
        switches_present(with_settings(entries, s)),
        switches_readable(with_settings(entries, s)),
{
    reveal_strlit("alt_tab");
    reveal_strlit("blacklist");
    reveal_strlit("skip_launcher");
    reveal_strlit("skip_language_selection");
    assert("alt_tab"@ != "blacklist"@) by {
        assert("alt_tab"@[0] != "blacklist"@[0]);
    }
    assert("alt_tab"@ != "skip_launcher"@) by {
        assert("alt_tab"@[0] != "skip_launcher"@[0]);
    }
    assert("alt_tab"@ != "skip_language_selection"@) by {
        assert("alt_tab"@[0] != "skip_language_selection"@[0]);
    }
    assert("blacklist"@ != "skip_launcher"@) by {
        assert("blacklist"@[0] != "skip_launcher"@[0]);
    }
    assert("blacklist"@ != "skip_language_selection"@) by {
        assert("blacklist"@[0] != "skip_language_selection"@[0]);
    }
    assert("skip_launcher"@ != "skip_language_selection"@) by {
        assert("skip_launcher"@[7] != "skip_language_selection"@[7]);
    }
    lemma_json_bool_utf8(s.alt_tab);
    lemma_json_bool_utf8(s.blacklist);
    lemma_json_bool_utf8(s.skip_launcher);
    lemma_json_bool_utf8(s.skip_language_selection);
}

/// The settings read from the game's files always have the alt-tab and blacklist hacks
/// on; the launcher is skipped exactly when `AUTO_LAUNCH` is "0", the language selection
/// exactly when `USE_LANGUAGE_SELECT` is "0".
pub proof fn law_files_turn_the_hacks_on(auto_launch: Seq<char>, use_language_select: Seq<char>)
    ensures
        settings_from_values(auto_launch, use_language_select).alt_tab,
        settings_from_values(auto_launch, use_language_select).blacklist,
        settings_from_values(auto_launch, use_language_select).skip_launcher <==> auto_launch == seq!['0'],
        settings_from_values(auto_launch, use_language_select).skip_language_selection
            <==> use_language_select == seq!['0'],
{
    reveal_strlit("0");
    assert("0"@ =~= seq!['0']);
}

} // verus!
