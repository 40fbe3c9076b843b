use vstd::prelude::*;
use vstd::string::StrSliceExecFns;
use vstd::string::StringExecFns;

verus! {

// -- Decimal numbers as Rust's `FromStr` for unsigned integers reads them

/// Whether `c` is an ASCII decimal digit.
pub open spec fn is_digit(c: char) -> bool {
    '0' <= c && c <= '9'
}

/// The number that a string of decimal digits spells.
pub open spec fn digits_value(s: Seq<char>) -> int
    decreases s.len(),
{
    if s.len() == 0 {
        0
    } else {
        digits_value(s.drop_last()) * 10 + (s.last() as int - '0' as int)
    }
}

/// The value of `s` read as an unsigned decimal number no larger than `max`:
/// an optional `+` followed by one or more digits, nothing else (no sign
/// other than `+`, no whitespace). `None` when `s` is not such a number or
/// its value exceeds `max`.
pub open spec fn unsigned_value(s: Seq<char>, max: int) -> Option<int> {
    let digits = unsigned_digits(s);
    if digits.len() > 0 && (forall|i: int| 0 <= i < digits.len() ==> is_digit(#[trigger] digits[i]))
        && digits_value(digits) <= max {
        Some(digits_value(digits))
    } else {
        None
    }
}

/// `s` read as a `u8`.
pub open spec fn parsed_u8(s: Seq<char>) -> Option<u8> {
    match unsigned_value(s, u8::MAX as int) {
        Some(v) => Some(v as u8),
        None => None,
    }
}

/// `s` read as a `u16`.
pub open spec fn parsed_u16(s: Seq<char>) -> Option<u16> {
    match unsigned_value(s, u16::MAX as int) {
        Some(v) => Some(v as u16),
        None => None,
    }
}

/// `s` read as a `u32`.
pub open spec fn parsed_u32(s: Seq<char>) -> Option<u32> {
    match unsigned_value(s, u32::MAX as int) {
        Some(v) => Some(v as u32),
        None => None,
    }
}

/// `s` read as a `usize`.
pub open spec fn parsed_usize(s: Seq<char>) -> Option<usize> {
    match unsigned_value(s, usize::MAX as int) {
        Some(v) => Some(v as usize),
        None => None,
    }
}

proof fn lemma_digits_nonnegative(t: Seq<char>)
    requires
        forall|i: int| 0 <= i < t.len() ==> is_digit(#[trigger] t[i]),
    ensures
        digits_value(t) >= 0,
    decreases t.len(),
{
    if t.len() > 0 {
        lemma_digits_nonnegative(t.drop_last());
        assert(is_digit(t.last()));
    }
}

/// A prefix of a string of digits spells no more than the whole string.
proof fn lemma_digits_prefix(t: Seq<char>, k: int)
    requires
        0 <= k <= t.len(),
        forall|i: int| 0 <= i < t.len() ==> is_digit(#[trigger] t[i]),
    ensures
        0 <= digits_value(t.take(k)) <= digits_value(t),
    decreases t.len(),
{
    if k == t.len() {
        assert(t.take(k) =~= t);
        lemma_digits_nonnegative(t);
    } else {
        lemma_digits_prefix(t.drop_last(), k);
        assert(t.drop_last().take(k) =~= t.take(k));
        assert(is_digit(t.last()));
    }
}

/// The digits of `s` once an optional leading `+` is dropped.
pub open spec fn unsigned_digits(s: Seq<char>) -> Seq<char> {
    if s.len() > 0 && s[0] == '+' {
        s.skip(1)
    } else {
        s
    }
}

/// The value of the decimal digit `c`, if it is one.
fn digit_value(c: char) -> (d: Option<u64>)
    ensures
        match d {
            Some(v) => is_digit(c) && v as int == c as int - '0' as int && v <= 9,
            None => !is_digit(c),
        },
{
    if c == '0' {
        Some(0)
    } else if c == '1' {
        Some(1)
    } else if c == '2' {
        Some(2)
    } else if c == '3' {
        Some(3)
    } else if c == '4' {
        Some(4)
    } else if c == '5' {
        Some(5)
    } else if c == '6' {
        Some(6)
    } else if c == '7' {
        Some(7)
    } else if c == '8' {
        Some(8)
    } else if c == '9' {
        Some(9)
    } else {
        None
    }
}

/// Reads `s` as an unsigned decimal number no larger than `max`, as std's
/// `FromStr` for the unsigned integers does: an optional `+`, then one or
/// more ASCII digits.
fn parse_unsigned(s: &str, max: u64) -> (r: Option<u64>)
    requires
        max >= 9,
    ensures
        match unsigned_value(s@, max as int) {
            Some(v) => r matches Some(x) && x as int == v,
            None => r is None,
        },
        r matches Some(x) ==> x <= max,
{
    let n = s.unicode_len();
    let start: usize = if n > 0 && s.get_char(0) == '+' {
        1
    } else {
        0
    };
    let ghost digits = s@.subrange(start as int, n as int);
    assert(digits =~= unsigned_digits(s@));
    if start == n {
        assert(digits.len() == 0);
        return None;
    }
    let mut value: u64 = 0;
    let mut i: usize = start;
    while i < n
        invariant
            start <= i <= n,
            n == s@.len(),
            digits == s@.subrange(start as int, n as int),
            digits == unsigned_digits(s@),
            forall|k: int| 0 <= k < i - start ==> is_digit(#[trigger] digits[k]),
            value as int == digits_value(digits.take(i - start)),
            value <= max,
            max >= 9,
        decreases n - i,
    {
        let c = s.get_char(i);
        assert(c == digits[i - start]);
        let d: u64 = match digit_value(c) {
            Some(d) => d,
            None => {
                proof {
                    assert(!is_digit(digits[i - start]));
                    assert(!(forall|k: int| 0 <= k < digits.len() ==> is_digit(#[trigger] digits[k])));
                    assert(unsigned_value(s@, max as int) is None);
                }
                return None;
            },
        };
        assert(digits.take(i - start + 1).drop_last() =~= digits.take(i - start));
        assert(digits.take(i - start + 1).last() == c);
        assert(digits_value(digits.take(i - start + 1)) == value * 10 + d);
        if value > (max - d) / 10 {
            proof {
                assert(value * 10 + d > max) by (nonlinear_arith)
                    requires
                        value > (max - d) / 10,
                        d <= 9,
                        max >= 9,
                ;
                if forall|k: int| 0 <= k < digits.len() ==> is_digit(#[trigger] digits[k]) {
                    lemma_digits_prefix(digits, i - start + 1);
                    assert(digits_value(digits) > max);
                }
            }
            return None;
        }
        assert(value * 10 + d <= max) by (nonlinear_arith)
            requires
                value <= (max - d) / 10,
                d <= 9,
                max >= 9,
        ;
        value = value * 10 + d;
        i += 1;
    }
    assert(digits.take(n - start) =~= digits);
    Some(value)
}

/// `s` read as a `u8` (see `parse_unsigned`).
fn parse_u8(s: &str) -> (r: Option<u8>)
    ensures
        r == parsed_u8(s@),
{
    match parse_unsigned(s, 0xff) {
        Some(v) => Some(v as u8),
        None => None,
    }
}

/// `s` read as a `u16`.
fn parse_u16(s: &str) -> (r: Option<u16>)
    ensures
        r == parsed_u16(s@),
{
    match parse_unsigned(s, 0xffff) {
        Some(v) => Some(v as u16),
        None => None,
    }
}

/// `s` read as a `u32`.
fn parse_u32(s: &str) -> (r: Option<u32>)
    ensures
        r == parsed_u32(s@),
{
    match parse_unsigned(s, 0xffff_ffff) {
        Some(v) => Some(v as u32),
        None => None,
    }
}

/// `s` read as a `usize`.
fn parse_usize(s: &str) -> (r: Option<usize>)
    ensures
        r == parsed_usize(s@),
{
    match parse_unsigned(s, usize::MAX as u64) {
        Some(v) => Some(v as usize),
        None => None,
    }
}

/// Whether `s` and `word` are the same text.
fn same_text(s: &str, word: &str) -> (same: bool)
    ensures
        same == (s@ == word@),
{
    let n = s.unicode_len();
    if n != word.unicode_len() {
        return false;
    }
    let mut i: usize = 0;
    while i < n
        invariant
            n == s@.len(),
            n == word@.len(),
            i <= n,
            forall|j: int| 0 <= j < i ==> s@[j] == word@[j],
        decreases n - i,
    {
        if s.get_char(i) != word.get_char(i) {
            return false;
        }
        i += 1;
    }
    assert(s@ =~= word@);
    true
}

fn copy_text(s: &Option<String>) -> (r: Option<String>)
    ensures
        r == *s,
{
    match s {
        Some(t) => Some(t.clone()),
        None => None,
    }
}

// -- What the emulator does when the CPU jams

#[derive(Clone, Copy, PartialEq, Eq, Debug, Structural)]
pub enum JamAction {
    Continue,
    Quit,
    Reset,
}

impl JamAction {
    /// The action named `name`: "continue", "quit" or "reset".
    pub open spec fn named(name: Seq<char>) -> Option<JamAction> {
        if name == "continue"@ {
            Some(JamAction::Continue)
        } else if name == "quit"@ {
            Some(JamAction::Quit)
        } else if name == "reset"@ {
            Some(JamAction::Reset)
        } else {
            None
        }
    }

    pub fn from(name: &str) -> (action: JamAction)
        requires
            JamAction::named(name@) is Some,
        ensures
            JamAction::named(name@) == Some(action),
    {
        if same_text(name, "continue") {
            JamAction::Continue
        } else if same_text(name, "quit") {
            JamAction::Quit
        } else {
            JamAction::Reset
        }
    }
}

// -- The options the emulator understands, and reading a command line with them

/// How many values an option takes: none (a flag), one, or one per occurrence.
#[derive(Clone, Copy, PartialEq, Eq, Debug, Structural)]
pub enum OptionArity {
    Flag,
    Single,
    Repeated,
}

/// One command-line option: its one-letter name (or none), its long name,
/// the description and value hint the help text shows, and its arity.
pub struct OptionSpec {
    pub short: String,
    pub long: String,
    pub desc: String,
    pub hint: String,
    pub arity: OptionArity,
}

/// Each option as plain text: short name, long name, arity, description, hint.
pub open spec fn option_entries(table: Seq<OptionSpec>) -> Seq<(Seq<char>, Seq<char>, OptionArity, Seq<char>, Seq<char>)> {
    table.map_values(|o: OptionSpec| (o.short@, o.long@, o.arity, o.desc@, o.hint@))
}

/// What decides how a command line is read: each option's names and arity.
pub open spec fn entry_names(entries: Seq<(Seq<char>, Seq<char>, OptionArity, Seq<char>, Seq<char>)>) -> Seq<(Seq<char>, Seq<char>, OptionArity)> {
    entries.map_values(|e: (Seq<char>, Seq<char>, OptionArity, Seq<char>, Seq<char>)| (e.0, e.1, e.2))
}

/// The text of each string.
pub open spec fn texts(v: Seq<String>) -> Seq<Seq<char>> {
    v.map_values(|s: String| s@)
}

/// Names that getopts takes without panicking: a short name is empty or one
/// printable ASCII character, a long name has at least two characters.
pub open spec fn names_valid(names: Seq<(Seq<char>, Seq<char>, OptionArity)>) -> bool {
    forall|i: int|
        0 <= i < names.len() ==> {
            &&& (#[trigger] names[i]).0.len() == 0 || (names[i].0.len() == 1 && '!' <= names[i].0[0]
                && names[i].0[0] <= '~')
            &&& names[i].1.len() >= 2
        }
}

/// The emulator's options, in the order the help text lists them: short
/// name, long name, arity, description and value hint.
pub open spec fn option_table() -> Seq<(Seq<char>, Seq<char>, OptionArity, Seq<char>, Seq<char>)> {
    seq![
        (""@, "model"@, OptionArity::Single, "set NTSC or PAL variants"@, "[ntsc|pal]"@),
        (""@, "autostart"@, OptionArity::Single, "attach and autostart image"@, "path"@),
        (""@, "binary"@, OptionArity::Single, "load binary into memory"@, "path"@),
        (""@, "offset"@, OptionArity::Single, "offset at which to load binary"@, "address"@),
        (""@, "console"@, OptionArity::Flag, "start in console mode"@, ""@),
        ("f"@, "fullscreen"@, OptionArity::Flag, "enable fullscreen"@, ""@),
        (""@, "width"@, OptionArity::Single, "window width"@, "800"@),
        (""@, "height"@, OptionArity::Single, "window height"@, "600"@),
        (""@, "speed"@, OptionArity::Single, "set speed of the emulator"@, "number"@),
        (""@, "warp"@, OptionArity::Flag, "enable wrap mode"@, ""@),
        (""@, "joydev1"@, OptionArity::Single, "set device for joystick 1"@, "none"@),
        (""@, "joydev2"@, OptionArity::Single, "set device for joystick 2"@, "numpad"@),
        (""@, "nosound"@, OptionArity::Flag, "disable sound playback"@, ""@),
        (""@, "nosidfilters"@, OptionArity::Flag, "disable SID filters"@, ""@),
        (""@, "soundbufsize"@, OptionArity::Single, "set sound buffer size in samples"@, "4096"@),
        (""@, "soundrate"@, OptionArity::Single, "set sound sample rate in Hz"@, "44100"@),
        (""@, "bp"@, OptionArity::Repeated, "set breakpoint at this address"@, "address"@),
        ("d"@, "debug"@, OptionArity::Flag, "start debugger"@, ""@),
        (""@, "debugaddress"@, OptionArity::Single, "start debugger bound to the specified address"@, "127.0.0.1:9999"@),
        (""@, "jamaction"@, OptionArity::Single, "set cpu jam handling"@, "[continue|quit|reset]"@),
        (""@, "rap"@, OptionArity::Single, "start rap server bound to the specified address"@, "127.0.0.1:9999"@),
        (""@, "loglevel"@, OptionArity::Single, "set log level"@, "[error|warn|info|debug|trace]"@),
        (""@, "log"@, OptionArity::Repeated, "set log level for a target"@, "target=level"@),
        ("h"@, "help"@, OptionArity::Flag, "display this help"@, ""@),
        ("V"@, "version"@, OptionArity::Flag, "display this version"@, ""@),
    ]
}

proof fn lemma_option_names_valid()
    ensures
        names_valid(entry_names(option_table())),
{
        reveal_strlit("");
        reveal_strlit("V");
        reveal_strlit("autostart");
        reveal_strlit("binary");
        reveal_strlit("bp");
        reveal_strlit("console");
        reveal_strlit("d");
        reveal_strlit("debug");
        reveal_strlit("debugaddress");
        reveal_strlit("f");
        reveal_strlit("fullscreen");
        reveal_strlit("h");
        reveal_strlit("height");
        reveal_strlit("help");
        reveal_strlit("jamaction");
        reveal_strlit("joydev1");
        reveal_strlit("joydev2");
        reveal_strlit("log");
        reveal_strlit("loglevel");
        reveal_strlit("model");
        reveal_strlit("nosidfilters");
        reveal_strlit("nosound");
        reveal_strlit("offset");
        reveal_strlit("rap");
        reveal_strlit("soundbufsize");
        reveal_strlit("soundrate");
        reveal_strlit("speed");
        reveal_strlit("version");
        reveal_strlit("warp");
        reveal_strlit("width");
    let names = entry_names(option_table());
    assert forall|i: int| 0 <= i < names.len() implies {
        &&& (#[trigger] names[i]).0.len() == 0 || (names[i].0.len() == 1 && '!' <= names[i].0[0]
            && names[i].0[0] <= '~')
        &&& names[i].1.len() >= 2
    } by {
        assert(names[i] == (option_table()[i].0, option_table()[i].1, option_table()[i].2));
    }
}

/// What getopts makes of the command-line arguments `args` given options
/// with these names and arities: for each option, whether it occurred and
/// the values it was given, or the text of the failure.
pub uninterp spec fn getopts_outcome(names: Seq<(Seq<char>, Seq<char>, OptionArity)>, args: Seq<Seq<char>>) -> Result<Seq<(bool, Seq<Seq<char>>)>, Seq<char>>;

/// The help text getopts' `Options::usage` writes for these options under `brief`.
pub uninterp spec fn getopts_usage(entries: Seq<(Seq<char>, Seq<char>, OptionArity, Seq<char>, Seq<char>)>, brief: Seq<char>) -> Seq<char>;

/// Reads `args` with getopts (`Options::new`, `optflag`, `optopt` and
/// `optmulti` for the table, then `Options::parse`). On success it reports,
/// option by option in table order, `Matches::opt_present` and
/// `Matches::opt_strs`; on failure the `Display` text of getopts' `Fail`.
/// Both are what `getopts_outcome` names; the requires leaves out the names
/// on which getopts panics.
#[verifier::external_body]
fn getopts_parse(table: &Vec<OptionSpec>, args: &Vec<String>) -> (r: Result<Vec<(bool, Vec<String>)>, String>)
    requires
        names_valid(entry_names(option_entries(table@))),
    ensures
        match getopts_outcome(entry_names(option_entries(table@)), texts(args@)) {
            Ok(found) => r matches Ok(v) && v@.len() == table@.len() && v@.len() == found.len() && (forall|i: int|
                0 <= i < v@.len() ==> (#[trigger] v@[i]).0 == found[i].0 && texts(v@[i].1@) == found[i].1),
            Err(message) => r matches Err(s) && s@ == message,
        },
{
    let mut opts = getopts::Options::new();
    for o in table.iter() {
        match o.arity {
            OptionArity::Flag => opts.optflag(&o.short, &o.long, &o.desc),
            OptionArity::Single => opts.optopt(&o.short, &o.long, &o.desc, &o.hint),
            OptionArity::Repeated => opts.optmulti(&o.short, &o.long, &o.desc, &o.hint),
        };
    }
    match opts.parse(args) {
        Ok(m) => Ok(table.iter().map(|o| (m.opt_present(&o.long), m.opt_strs(&o.long))).collect()),
        Err(f) => Err(f.to_string()),
    }
}

/// getopts' `Options::usage` for the table under `brief` (the options built
/// as in `getopts_parse`): the text that `getopts_usage` names.
#[verifier::external_body]
fn getopts_usage_text(table: &Vec<OptionSpec>, brief: &str) -> (text: String)
    requires
        names_valid(entry_names(option_entries(table@))),
    ensures
        text@ == getopts_usage(option_entries(table@), brief@),
{
    let mut opts = getopts::Options::new();
    for o in table.iter() {
        match o.arity {
            OptionArity::Flag => opts.optflag(&o.short, &o.long, &o.desc),
            OptionArity::Single => opts.optopt(&o.short, &o.long, &o.desc, &o.hint),
            OptionArity::Repeated => opts.optmulti(&o.short, &o.long, &o.desc, &o.hint),
        };
    }
    opts.usage(brief)
}

fn option_spec(short: &str, long: &str, desc: &str, hint: &str, arity: OptionArity) -> (o: OptionSpec)
    ensures
        o.short@ == short@,
        o.long@ == long@,
        o.desc@ == desc@,
        o.hint@ == hint@,
        o.arity == arity,
{
    OptionSpec { short: short.to_owned(), long: long.to_owned(), desc: desc.to_owned(), hint: hint.to_owned(), arity }
}

/// What was found of each option, as text: whether it occurred and its values.
pub open spec fn found_texts(found: Seq<(bool, Vec<String>)>) -> Seq<(bool, Seq<Seq<char>>)> {
    found.map_values(|e: (bool, Vec<String>)| (e.0, texts(e.1@)))
}

/// The first value, if any.
pub open spec fn first_of(values: Seq<Seq<char>>) -> Option<Seq<char>> {
    if values.len() == 0 {
        None
    } else {
        Some(values[0])
    }
}

/// The text `t` holds, if any.
pub open spec fn text_of(t: Option<String>) -> Option<Seq<char>> {
    match t {
        Some(s) => Some(s@),
        None => None,
    }
}

fn first_value(values: &Vec<String>) -> (r: Option<String>)
    ensures
        text_of(r) == first_of(texts(values@)),
{
    if values.len() == 0 {
        None
    } else {
        Some(values[0].clone())
    }
}

fn all_values(values: &Vec<String>) -> (r: Vec<String>)
    ensures
        texts(r@) == texts(values@),
{
    let mut r: Vec<String> = Vec::new();
    let mut i: usize = 0;
    while i < values.len()
        invariant
            i <= values@.len(),
            r@.len() == i,
            forall|k: int| 0 <= k < i ==> (#[trigger] r@[k])@ == values@[k]@,
        decreases values@.len() - i,
    {
        r.push(values[i].clone());
        i += 1;
    }
    assert(texts(r@) =~= texts(values@));
    r
}

/// Each field of the parsed command line holds what was found of the option
/// whose long name is the field's name: the first value of an option that
/// takes one, every value of a repeatable one, whether a flag occurred.
pub proof fn law_parsed_args_by_name(m: ParsedArgs, found: Seq<(bool, Seq<Seq<char>>)>)
    requires
        parsed_from(m, found),
    ensures
        option_table()[0].1 == "model"@ && text_of(m.model) == first_of(found[0].1),
        option_table()[1].1 == "autostart"@ && text_of(m.autostart) == first_of(found[1].1),
        option_table()[2].1 == "binary"@ && text_of(m.binary) == first_of(found[2].1),
        option_table()[3].1 == "offset"@ && text_of(m.offset) == first_of(found[3].1),
        option_table()[4].1 == "console"@ && m.console == found[4].0,
        option_table()[5].1 == "fullscreen"@ && m.fullscreen == found[5].0,
        option_table()[6].1 == "width"@ && text_of(m.width) == first_of(found[6].1),
        option_table()[7].1 == "height"@ && text_of(m.height) == first_of(found[7].1),
        option_table()[8].1 == "speed"@ && text_of(m.speed) == first_of(found[8].1),
        option_table()[9].1 == "warp"@ && m.warp == found[9].0,
        option_table()[10].1 == "joydev1"@ && text_of(m.joydev1) == first_of(found[10].1),
        option_table()[11].1 == "joydev2"@ && text_of(m.joydev2) == first_of(found[11].1),
        option_table()[12].1 == "nosound"@ && m.nosound == found[12].0,
        option_table()[13].1 == "nosidfilters"@ && m.nosidfilters == found[13].0,
        option_table()[14].1 == "soundbufsize"@ && text_of(m.soundbufsize) == first_of(found[14].1),
        option_table()[15].1 == "soundrate"@ && text_of(m.soundrate) == first_of(found[15].1),
        option_table()[16].1 == "bp"@ && texts(m.bp@) == found[16].1,
        option_table()[17].1 == "debug"@ && m.debug == found[17].0,
        option_table()[18].1 == "debugaddress"@ && text_of(m.debugaddress) == first_of(found[18].1),
        option_table()[19].1 == "jamaction"@ && text_of(m.jamaction) == first_of(found[19].1),
        option_table()[20].1 == "rap"@ && text_of(m.rap) == first_of(found[20].1),
        option_table()[21].1 == "loglevel"@ && text_of(m.loglevel) == first_of(found[21].1),
        option_table()[22].1 == "log"@ && texts(m.log@) == found[22].1,
        option_table()[23].1 == "help"@ && m.help == found[23].0,
        option_table()[24].1 == "version"@ && m.version == found[24].0,
{
}

// -- The command line

/// The values the command line gave, option by option (absent options are
/// `None` or `false`); `bp` and `log` hold every value of those repeatable options.
pub struct ParsedArgs {
    pub model: Option<String>,
    pub autostart: Option<String>,
    pub binary: Option<String>,
    pub offset: Option<String>,
    pub console: bool,
    pub fullscreen: bool,
    pub width: Option<String>,
    pub height: Option<String>,
    pub speed: Option<String>,
    pub warp: bool,
    pub joydev1: Option<String>,
    pub joydev2: Option<String>,
    pub nosound: bool,
    pub nosidfilters: bool,
    pub soundbufsize: Option<String>,
    pub soundrate: Option<String>,
    pub bp: Vec<String>,
    pub debug: bool,
    pub debugaddress: Option<String>,
    pub jamaction: Option<String>,
    pub rap: Option<String>,
    pub loglevel: Option<String>,
    pub log: Vec<String>,
    pub help: bool,
    pub version: bool,
}

/// `m` holds what was found of each option of `option_table()`, taken in the
/// table's order: whether a flag occurred, the first value of an option that
/// takes one, every value of a repeatable one.
pub open spec fn parsed_from(m: ParsedArgs, found: Seq<(bool, Seq<Seq<char>>)>) -> bool {
    &&& text_of(m.model) == first_of(found[0].1)
    &&& text_of(m.autostart) == first_of(found[1].1)
    &&& text_of(m.binary) == first_of(found[2].1)
    &&& text_of(m.offset) == first_of(found[3].1)
    &&& m.console == found[4].0
    &&& m.fullscreen == found[5].0
    &&& text_of(m.width) == first_of(found[6].1)
    &&& text_of(m.height) == first_of(found[7].1)
    &&& text_of(m.speed) == first_of(found[8].1)
    &&& m.warp == found[9].0
    &&& text_of(m.joydev1) == first_of(found[10].1)
    &&& text_of(m.joydev2) == first_of(found[11].1)
    &&& m.nosound == found[12].0
    &&& m.nosidfilters == found[13].0
    &&& text_of(m.soundbufsize) == first_of(found[14].1)
    &&& text_of(m.soundrate) == first_of(found[15].1)
    &&& texts(m.bp@) == found[16].1
    &&& m.debug == found[17].0
    &&& text_of(m.debugaddress) == first_of(found[18].1)
    &&& text_of(m.jamaction) == first_of(found[19].1)
    &&& text_of(m.rap) == first_of(found[20].1)
    &&& text_of(m.loglevel) == first_of(found[21].1)
    &&& texts(m.log@) == found[22].1
    &&& m.help == found[23].0
    &&& m.version == found[24].0
}

/// The front end's own settings.
pub struct Options {
    pub fullscreen: bool,
    pub window_size: (u32, u32),
    pub speed: u8,
    pub warp_mode: bool,
    pub debug: bool,
    /// Address the debugger listens on, as given (host:port).
    pub dbg_address: Option<String>,
    pub jam_action: JamAction,
    /// Address the remote-access server listens on, as given (host:port).
    pub rap_address: Option<String>,
}

/// Joystick devices by name; `joystick_1` is `None` while it keeps the system default.
pub struct JoystickConfig {
    pub joystick_1: Option<String>,
    pub joystick_2: String,
}

pub struct SoundConfig {
    pub enable: bool,
    pub buffer_size: usize,
    pub sample_rate: u32,
    pub sid_filters: bool,
}

/// The emulated system's configuration.
pub struct Config {
    /// The system model by name ("pal" or "ntsc").
    pub model: String,
    pub joystick: JoystickConfig,
    pub sound: SoundConfig,
}

/// What to run once the system is up.
pub enum Autostart {
    Nothing,
    /// Attach the image at this path and start it.
    Image(String),
    /// Load the raw binary at this path into memory at `offset`.
    Binary { path: String, offset: u16 },
}

/// What to do to the system before it runs.
pub struct Startup {
    pub breakpoints: Vec<u16>,
    pub autostart: Autostart,
}

/// The text, when given, is a decimal number that fits a `u8`.
pub open spec fn valid_u8(text: Option<String>) -> bool {
    text matches Some(s) ==> parsed_u8(s@) is Some
}

/// The text, when given, is a decimal number that fits a `u16`.
pub open spec fn valid_u16(text: Option<String>) -> bool {
    text matches Some(s) ==> parsed_u16(s@) is Some
}

/// The text, when given, is a decimal number that fits a `u32`.
pub open spec fn valid_u32(text: Option<String>) -> bool {
    text matches Some(s) ==> parsed_u32(s@) is Some
}

/// The text, when given, is a decimal number that fits a `usize`.
pub open spec fn valid_usize(text: Option<String>) -> bool {
    text matches Some(s) ==> parsed_usize(s@) is Some
}

/// The number the text spells when given, else `default`.
pub open spec fn u32_or(text: Option<String>, default: u32) -> u32 {
    match text {
        Some(s) => parsed_u32(s@).unwrap(),
        None => default,
    }
}

pub struct Cli;

impl Cli {
    /// The emulator's options, in the order of `option_table()`.
    pub fn build_options() -> (table: Vec<OptionSpec>)
        ensures
            option_entries(table@) == option_table(),
    {
        let mut table: Vec<OptionSpec> = Vec::new();
            table.push(option_spec("", "model", "set NTSC or PAL variants", "[ntsc|pal]", OptionArity::Single));
            table.push(option_spec("", "autostart", "attach and autostart image", "path", OptionArity::Single));
            table.push(option_spec("", "binary", "load binary into memory", "path", OptionArity::Single));
            table.push(option_spec("", "offset", "offset at which to load binary", "address", OptionArity::Single));
            table.push(option_spec("", "console", "start in console mode", "", OptionArity::Flag));
            table.push(option_spec("f", "fullscreen", "enable fullscreen", "", OptionArity::Flag));
            table.push(option_spec("", "width", "window width", "800", OptionArity::Single));
            table.push(option_spec("", "height", "window height", "600", OptionArity::Single));
            table.push(option_spec("", "speed", "set speed of the emulator", "number", OptionArity::Single));
            table.push(option_spec("", "warp", "enable wrap mode", "", OptionArity::Flag));
            table.push(option_spec("", "joydev1", "set device for joystick 1", "none", OptionArity::Single));
            table.push(option_spec("", "joydev2", "set device for joystick 2", "numpad", OptionArity::Single));
            table.push(option_spec("", "nosound", "disable sound playback", "", OptionArity::Flag));
            table.push(option_spec("", "nosidfilters", "disable SID filters", "", OptionArity::Flag));
            table.push(option_spec("", "soundbufsize", "set sound buffer size in samples", "4096", OptionArity::Single));
            table.push(option_spec("", "soundrate", "set sound sample rate in Hz", "44100", OptionArity::Single));
            table.push(option_spec("", "bp", "set breakpoint at this address", "address", OptionArity::Repeated));
            table.push(option_spec("d", "debug", "start debugger", "", OptionArity::Flag));
            table.push(option_spec("", "debugaddress", "start debugger bound to the specified address", "127.0.0.1:9999", OptionArity::Single));
            table.push(option_spec("", "jamaction", "set cpu jam handling", "[continue|quit|reset]", OptionArity::Single));
            table.push(option_spec("", "rap", "start rap server bound to the specified address", "127.0.0.1:9999", OptionArity::Single));
            table.push(option_spec("", "loglevel", "set log level", "[error|warn|info|debug|trace]", OptionArity::Single));
            table.push(option_spec("", "log", "set log level for a target", "target=level", OptionArity::Repeated));
            table.push(option_spec("h", "help", "display this help", "", OptionArity::Flag));
            table.push(option_spec("V", "version", "display this version", "", OptionArity::Flag));
        assert(option_entries(table@) =~= option_table());
        table
    }

    /// Reads the command line `args` (the program's name first, then its
    /// arguments) with the emulator's options. A command line getopts
    /// rejects gives its failure after the line "Invalid options".
    pub fn parse_args(args: &[String]) -> (r: Result<ParsedArgs, String>)
        requires
            args@.len() >= 1,
        ensures
            match getopts_outcome(entry_names(option_table()), texts(args@).skip(1)) {
                Ok(found) => r matches Ok(m) && parsed_from(m, found),
                Err(message) => r matches Err(s) && s@ == "Invalid options\n"@ + message,
            },
    {
        let table = Cli::build_options();
        proof {
            lemma_option_names_valid();
        }
        let mut rest: Vec<String> = Vec::new();
        let mut i: usize = 1;
        while i < args.len()
            invariant
                1 <= i <= args@.len(),
                rest@.len() == i - 1,
                forall|k: int| 0 <= k < i - 1 ==> (#[trigger] rest@[k])@ == args@[k + 1]@,
            decreases args@.len() - i,
        {
            rest.push(args[i].clone());
            i += 1;
        }
        assert(texts(rest@) =~= texts(args@).skip(1));
        match getopts_parse(&table, &rest) {
            Ok(found) => {
                assert(table@.len() == option_table().len());
                let ghost outcome = getopts_outcome(entry_names(option_entries(table@)), texts(rest@));
                assert(found_texts(found@) =~= outcome->Ok_0);
                Ok(Cli::to_parsed_args(&found))
            },
            Err(e) => {
                let mut message = "Invalid options\n".to_owned();
                message.append(e.as_str());
                Err(message)
            },
        }
    }

    /// The command line's values, from what was found of each option of
    /// `option_table()`, in the table's order: whether it occurred and the
    /// values it was given.
    pub fn to_parsed_args(found: &Vec<(bool, Vec<String>)>) -> (m: ParsedArgs)
        requires
            found@.len() == option_table().len(),
        ensures
            parsed_from(m, found_texts(found@)),
    {
        ParsedArgs {
            model: first_value(&found[0].1),
            autostart: first_value(&found[1].1),
            binary: first_value(&found[2].1),
            offset: first_value(&found[3].1),
            console: found[4].0,
            fullscreen: found[5].0,
            width: first_value(&found[6].1),
            height: first_value(&found[7].1),
            speed: first_value(&found[8].1),
            warp: found[9].0,
            joydev1: first_value(&found[10].1),
            joydev2: first_value(&found[11].1),
            nosound: found[12].0,
            nosidfilters: found[13].0,
            soundbufsize: first_value(&found[14].1),
            soundrate: first_value(&found[15].1),
            bp: all_values(&found[16].1),
            debug: found[17].0,
            debugaddress: first_value(&found[18].1),
            jamaction: first_value(&found[19].1),
            rap: first_value(&found[20].1),
            loglevel: first_value(&found[21].1),
            log: all_values(&found[22].1),
            help: found[23].0,
            version: found[24].0,
        }
    }

    /// The help text: getopts' usage of the emulator's options under the
    /// brief "C64 rustified emulator".
    pub fn usage() -> (text: String)
        ensures
            text@ == getopts_usage(option_table(), "C64 rustified emulator"@),
    {
        let table = Cli::build_options();
        proof {
            lemma_option_names_valid();
        }
        getopts_usage_text(&table, "C64 rustified emulator")
    }

    /// The front end's settings: window 800x600 and speed 100 unless given,
    /// the jam action "continue" unless given.
    pub fn parse_app_options(matches: &ParsedArgs) -> (r: Result<Options, String>)
        requires
            valid_u32(matches.width),
            valid_u32(matches.height),
            valid_u8(matches.speed),
            matches.jamaction matches Some(s) ==> JamAction::named(s@) is Some,
        ensures
            r matches Ok(options) && {
                &&& options.fullscreen == matches.fullscreen
                &&& options.window_size == (u32_or(matches.width, 800), u32_or(matches.height, 600))
                &&& options.speed == (match matches.speed {
                    Some(s) => parsed_u8(s@).unwrap(),
                    None => 100u8,
                })
                &&& options.warp_mode == matches.warp
                &&& options.debug == matches.debug
                &&& options.dbg_address == matches.debugaddress
                &&& options.jam_action == (match matches.jamaction {
                    Some(s) => JamAction::named(s@).unwrap(),
                    None => JamAction::Continue,
                })
                &&& options.rap_address == matches.rap
            },
    {
        let width = match &matches.width {
            Some(s) => parse_u32(s).unwrap(),
            None => 800,
        };
        let height = match &matches.height {
            Some(s) => parse_u32(s).unwrap(),
            None => 600,
        };
        let speed = match &matches.speed {
            Some(s) => parse_u8(s).unwrap(),
            None => 100,
        };
        let jam_action = match &matches.jamaction {
            Some(s) => JamAction::from(s),
            None => JamAction::Continue,
        };
        let options = Options {
            fullscreen: matches.fullscreen,
            window_size: (width, height),
            speed,
            warp_mode: matches.warp,
            debug: matches.debug,
            dbg_address: copy_text(&matches.debugaddress),
            jam_action,
            rap_address: copy_text(&matches.rap),
        };
        Ok(options)
    }

    /// The system configuration: the model ("pal" unless given), the
    /// joystick devices and the sound settings.
    pub fn parse_system_config(matches: &ParsedArgs) -> (r: Result<Config, String>)
        requires
            valid_usize(matches.soundbufsize),
            valid_u32(matches.soundrate),
        ensures
            r matches Ok(config) && {
                &&& config.model@ == (match matches.model {
                    Some(s) => s@,
                    None => "pal"@,
                })
                &&& Cli::device_config_of(config.joystick, *matches)
                &&& (matches.joydev1 is None ==> config.joystick.joystick_1 is None)
                &&& Cli::sound_config_of(config.sound, *matches)
            },
    {
        let model = match &matches.model {
            Some(s) => s.clone(),
            None => "pal".to_owned(),
        };
        let mut config = Config {
            model,
            joystick: JoystickConfig { joystick_1: None, joystick_2: "numpad".to_owned() },
            sound: SoundConfig { enable: true, buffer_size: 4096, sample_rate: 44100, sid_filters: true },
        };
        let _ = Cli::parse_device_config(&mut config, matches);
        let _ = Cli::parse_sound_config(&mut config, matches);
        Ok(config)
    }

    /// The joystick settings the options give: joystick 1 is set only when
    /// given; joystick 2 is the numeric keypad unless given.
    pub open spec fn device_config_of(joystick: JoystickConfig, matches: ParsedArgs) -> bool {
        &&& (matches.joydev1 matches Some(s) ==> joystick.joystick_1 == Some(s))
        &&& joystick.joystick_2@ == (match matches.joydev2 {
            Some(s) => s@,
            None => "numpad"@,
        })
    }

    /// The sound settings the options give: sound and SID filters on unless
    /// turned off, a 4096-sample buffer and 44100 Hz unless given.
    pub open spec fn sound_config_of(sound: SoundConfig, matches: ParsedArgs) -> bool {
        &&& sound.enable == !matches.nosound
        &&& sound.buffer_size == (match matches.soundbufsize {
            Some(s) => parsed_usize(s@).unwrap(),
            None => 4096usize,
        })
        &&& sound.sample_rate == u32_or(matches.soundrate, 44100)
        &&& sound.sid_filters == !matches.nosidfilters
    }

    fn parse_device_config(config: &mut Config, matches: &ParsedArgs) -> (r: Result<(), String>)
        ensures
            r is Ok,
            Cli::device_config_of(final(config).joystick, *matches),
            final(config).joystick.joystick_1 == (match matches.joydev1 {
                Some(s) => Some(s),
                None => old(config).joystick.joystick_1,
            }),
            final(config).model == old(config).model,
            final(config).sound == old(config).sound,
    {
        if let Some(joydev) = &matches.joydev1 {
            config.joystick.joystick_1 = Some(joydev.clone());
        }
        if let Some(joydev) = &matches.joydev2 {
            config.joystick.joystick_2 = joydev.clone();
        } else {
            config.joystick.joystick_2 = "numpad".to_owned();
        }
        Ok(())
    }

    fn parse_sound_config(config: &mut Config, matches: &ParsedArgs) -> (r: Result<(), String>)
        requires
            valid_usize(matches.soundbufsize),
            valid_u32(matches.soundrate),
        ensures
            r is Ok,
            Cli::sound_config_of(final(config).sound, *matches),
            final(config).model == old(config).model,
            final(config).joystick == old(config).joystick,
    {
        config.sound.enable = !matches.nosound;
        config.sound.buffer_size = match &matches.soundbufsize {
            Some(s) => parse_usize(s).unwrap(),
            None => 4096,
        };
        config.sound.sample_rate = match &matches.soundrate {
            Some(s) => parse_u32(s).unwrap(),
            None => 44100,
        };
        config.sound.sid_filters = !matches.nosidfilters;
        Ok(())
    }

    /// Sets up debugging and autostart (see `set_debug_options` and `set_autostart_options`).
    pub fn set_c64_options(startup: &mut Startup, matches: &ParsedArgs) -> (r: Result<(), String>)
        requires
            forall|i: int| 0 <= i < matches.bp@.len() ==> parsed_u16(#[trigger] matches.bp@[i]@) is Some,
            matches.autostart is None && matches.binary is Some ==> valid_u16(matches.offset),
        ensures
            r is Ok,
            Cli::breakpoints_added(old(startup).breakpoints@, final(startup).breakpoints@, *matches),
            Cli::autostart_of(final(startup).autostart, *matches),
    {
        let _ = Cli::set_debug_options(startup, matches);
        let _ = Cli::set_autostart_options(startup, matches);
        Ok(())
    }

    /// What runs first: an image to autostart when given, else a raw binary
    /// loaded at `--offset` (0 unless given) when given, else nothing.
    pub open spec fn autostart_of(autostart: Autostart, matches: ParsedArgs) -> bool {
        match matches.autostart {
            Some(image) => autostart == Autostart::Image(image),
            None => match matches.binary {
                Some(path) => autostart == (Autostart::Binary {
                    path: path,
                    offset: match matches.offset {
                        Some(s) => parsed_u16(s@).unwrap(),
                        None => 0u16,
                    },
                }),
                None => autostart is Nothing,
            },
        }
    }

    /// `after` is `before` followed by the addresses of the `--bp` options, in order.
    pub open spec fn breakpoints_added(before: Seq<u16>, after: Seq<u16>, matches: ParsedArgs) -> bool {
        &&& after.len() == before.len() + matches.bp@.len()
        &&& after.subrange(0, before.len() as int) == before
        &&& forall|i: int|
            0 <= i < matches.bp@.len() ==> Some(#[trigger] after[before.len() + i]) == parsed_u16(
                matches.bp@[i]@,
            )
    }

    fn set_autostart_options(startup: &mut Startup, matches: &ParsedArgs) -> (r: Result<(), String>)
        requires
            matches.autostart is None && matches.binary is Some ==> valid_u16(matches.offset),
        ensures
            r is Ok,
            Cli::autostart_of(final(startup).autostart, *matches),
            final(startup).breakpoints == old(startup).breakpoints,
    {
        match &matches.autostart {
            Some(image_path) => {
                startup.autostart = Autostart::Image(image_path.clone());
            },
            None => {
                if let Some(binary_path) = &matches.binary {
                    let offset = match &matches.offset {
                        Some(s) => parse_u16(s).unwrap(),
                        None => 0,
                    };
                    startup.autostart = Autostart::Binary { path: binary_path.clone(), offset };
                } else {
                    startup.autostart = Autostart::Nothing;
                }
            },
        }
        Ok(())
    }

    fn set_debug_options(startup: &mut Startup, matches: &ParsedArgs) -> (r: Result<(), String>)
        requires
            forall|i: int| 0 <= i < matches.bp@.len() ==> parsed_u16(#[trigger] matches.bp@[i]@) is Some,
        ensures
            r is Ok,
            Cli::breakpoints_added(old(startup).breakpoints@, final(startup).breakpoints@, *matches),
            final(startup).autostart == old(startup).autostart,
    {
        let ghost before = startup.breakpoints@;
        let mut i: usize = 0;
        while i < matches.bp.len()
            invariant
                i <= matches.bp@.len(),
                forall|k: int| 0 <= k < matches.bp@.len() ==> parsed_u16(#[trigger] matches.bp@[k]@) is Some,
                startup.breakpoints@.len() == before.len() + i,
                startup.breakpoints@.subrange(0, before.len() as int) == before,
                forall|k: int|
                    0 <= k < i ==> Some(#[trigger] startup.breakpoints@[before.len() + k]) == parsed_u16(
                        matches.bp@[k]@,
                    ),
                startup.autostart == old(startup).autostart,
            decreases matches.bp@.len() - i,
        {
            let bp = parse_u16(&matches.bp[i]).unwrap();
            startup.breakpoints.push(bp);
            i += 1;
        }
        Ok(())
    }
}

} // verus!
