//! The settings of the program and how they are read from the text of an
//! environment file.
//!
//! The program reads the file and the environment. The grammar of a line, the
//! order in which settings are asked for, and what counts as a number are
//! decided here.

use vstd::prelude::*;
use vstd::string::StringExecFns;

verus! {

/// The settings of the program.
#[derive(Debug, Clone)]
pub struct Config {
    pub solana_rpc_url: String,
    pub solana_rpc_key: String,
    pub server_port: u16,
    pub log_level: String,
    pub monitor_interval_ms: u64,
    pub monitoring_depth: usize,
}

/// The settings, with their texts as sequences of characters.
pub struct ConfigView {
    pub solana_rpc_url: Seq<char>,
    pub solana_rpc_key: Seq<char>,
    pub server_port: u16,
    pub log_level: Seq<char>,
    pub monitor_interval_ms: u64,
    pub monitoring_depth: usize,
}

impl View for Config {
    type V = ConfigView;

    open spec fn view(&self) -> ConfigView {
        ConfigView {
            solana_rpc_url: self.solana_rpc_url@,
            solana_rpc_key: self.solana_rpc_key@,
            server_port: self.server_port,
            log_level: self.log_level@,
            monitor_interval_ms: self.monitor_interval_ms,
            monitoring_depth: self.monitoring_depth,
        }
    }
}

/// How much of what happens is logged.
#[derive(Debug, Clone, Copy, PartialEq, Eq, Structural)]
pub enum TracingLevel {
    Trace,
    Debug,
    Info,
    Warn,
    Error,
}

/// `std::io::Error`, carried as an opaque value.
#[verifier::external_type_specification]
#[verifier::external_body]
pub struct ExIoError(std::io::Error);

/// Why the settings could not be read.
#[derive(Debug)]
pub enum ConfigError {
    FileNotFound(String),
    ParseError(String),
    MissingVariable(String),
    IoError(std::io::Error),
}

/// A `ConfigError`, with its text as a sequence of characters.
pub enum ConfigErrorView {
    FileNotFound(Seq<char>),
    ParseError(Seq<char>),
    MissingVariable(Seq<char>),
    IoError(std::io::Error),
}

impl View for ConfigError {
    type V = ConfigErrorView;

    open spec fn view(&self) -> ConfigErrorView {
        match self {
            ConfigError::FileNotFound(path) => ConfigErrorView::FileNotFound(path@),
            ConfigError::ParseError(message) => ConfigErrorView::ParseError(message@),
            ConfigError::MissingVariable(key) => ConfigErrorView::MissingVariable(key@),
            ConfigError::IoError(error) => ConfigErrorView::IoError(*error),
        }
    }
}

/// The lower-case form of a text.
pub uninterp spec fn lowercase_of(text: Seq<char>) -> Seq<char>;

/// `str::to_lowercase`: the lower-case form of the text.
#[verifier::external_body]
fn lowercase(text: &str) -> (lowered: String)
    ensures
        lowered@ == lowercase_of(text@),
{
    text.to_lowercase()
}

/// The level that a lower-case name stands for. A name that is none of the
/// five stands for `Info`.
pub open spec fn level_of_name(name: Seq<char>) -> TracingLevel {
    if name == "trace"@ {
        TracingLevel::Trace
    } else if name == "debug"@ {
        TracingLevel::Debug
    } else if name == "info"@ {
        TracingLevel::Info
    } else if name == "warn"@ {
        TracingLevel::Warn
    } else if name == "error"@ {
        TracingLevel::Error
    } else {
        TracingLevel::Info
    }
}

/// Whether two texts hold the same characters.
fn same_text(left: &str, right: &str) -> (same: bool)
    ensures
        same == (left@ == right@),
{
    let left_owned = left.to_owned();
    let right_owned = right.to_owned();
    left_owned == right_owned
}

/// The level that `name` stands for, read as it is written.
pub fn level_from_name(name: &str) -> (level: TracingLevel)
    ensures
        level == level_of_name(name@),
{
    if same_text(name, "trace") {
        TracingLevel::Trace
    } else if same_text(name, "debug") {
        TracingLevel::Debug
    } else if same_text(name, "info") {
        TracingLevel::Info
    } else if same_text(name, "warn") {
        TracingLevel::Warn
    } else if same_text(name, "error") {
        TracingLevel::Error
    } else {
        TracingLevel::Info
    }
}

/// Whether `c` is one of the ten digits.
pub open spec fn is_digit(c: char) -> bool {
    '0' <= c <= '9'
}

/// The number that a row of digits stands for.
pub open spec fn decimal_value(digits: Seq<char>) -> int
    decreases digits.len(),
{
    if digits.len() == 0 {
        0
    } else {
        decimal_value(digits.drop_last()) * 10 + (digits.last() as int - '0' as int)
    }
}

/// Every character of `text` is a digit.
pub open spec fn all_digits(text: Seq<char>) -> bool {
    forall|i: int| 0 <= i < text.len() ==> is_digit(#[trigger] text[i])
}

/// The number that `text` stands for where it is one up to `max`: digits
/// only, at least one, with a `+` before them at most.
pub open spec fn parse_decimal(text: Seq<char>, max: int) -> Option<int> {
    let digits = if text.len() > 0 && text[0] == '+' {
        text.drop_first()
    } else {
        text
    };
    if digits.len() == 0 || !all_digits(digits) || decimal_value(digits) > max {
        None
    } else {
        Some(decimal_value(digits))
    }
}

/// The number of a row of digits is not below that of any row that it
/// starts with, and never negative.
proof fn lemma_decimal_value_grows(digits: Seq<char>, count: int)
    requires
        all_digits(digits),
        0 <= count <= digits.len(),
    ensures
        0 <= decimal_value(digits.take(count)) <= decimal_value(digits),
    decreases digits.len() - count,
{
    lemma_decimal_value_positive(digits.take(count));
    if count < digits.len() {
        assert(digits.take(count + 1).drop_last() == digits.take(count));
        assert(is_digit(digits.take(count + 1)[count]));
        lemma_decimal_value_grows(digits, count + 1);
    } else {
        assert(digits.take(count) == digits);
    }
}

/// A row of digits stands for no negative number.
proof fn lemma_decimal_value_positive(digits: Seq<char>)
    requires
        all_digits(digits),
    ensures
        0 <= decimal_value(digits),
    decreases digits.len(),
{
    if digits.len() > 0 {
        assert(is_digit(digits[digits.len() - 1]));
        lemma_decimal_value_positive(digits.drop_last());
    }
}

/// Reads `text` as a number up to `max`.
pub fn parse_number(text: &str, max: u64) -> (number: Option<u64>)
    ensures
        match number {
            Some(value) => parse_decimal(text@, max as int) == Some(value as int),
            None => parse_decimal(text@, max as int) is None,
        },
{
    let len = text.unicode_len();
    let first: usize = if len > 0 && text.get_char(0) == '+' {
        1
    } else {
        0
    };
    let ghost digits = if text@.len() > 0 && text@[0] == '+' {
        text@.drop_first()
    } else {
        text@
    };
    assert(digits == text@.skip(first as int));
    if first == len {
        return None;
    }
    let mut value: u64 = 0;
    let mut i: usize = first;
    while i < len
        invariant
            first <= i <= len,
            len == text@.len(),
            digits == text@.skip(first as int),
            digits == if text@.len() > 0 && text@[0] == '+' {
                text@.drop_first()
            } else {
                text@
            },
            all_digits(digits.take(i - first)),
            value == decimal_value(digits.take(i - first)),
            value <= max,
        decreases len - i,
    {
        let c = text.get_char(i);
        let ghost seen = digits.take(i - first);
        let ghost more = digits.take(i - first + 1);
        assert(more.drop_last() == seen);
        assert(more.last() == c);
        if !(c >= '0' && c <= '9') {
            assert(!is_digit(digits[i - first]));
            return None;
        }
        assert(all_digits(more)) by {
            assert forall|k: int| 0 <= k < more.len() implies is_digit(#[trigger] more[k]) by {
                if k < seen.len() {
                    assert(more[k] == seen[k]);
                }
            }
        }
        let digit: u64 = (c as u32 - '0' as u32) as u64;
        if digit > max || value > (max - digit) / 10 {
            proof {
                assert(decimal_value(more) > max);
                if all_digits(digits) {
                    lemma_decimal_value_grows(digits, i - first + 1);
                }
            }
            return None;
        }
        value = value * 10 + digit;
        i += 1;
    }
    assert(digits.take(i - first) == digits);
    Some(value)
}

impl Config {
    /// The level that the setting `log_level` names, in upper or lower case.
    pub fn get_tracing_level(&self) -> (level: TracingLevel)
        ensures
            level == level_of_name(lowercase_of(self.log_level@)),
    {
        let lowered = lowercase(self.log_level.as_str());
        level_from_name(lowered.as_str())
    }
}

/// Whether a character is white space: one of the characters that Unicode
/// lists as `White_Space`.
pub open spec fn is_whitespace_char(c: char) -> bool {
    let code = c as u32;
    ||| 0x09 <= code <= 0x0D
    ||| code == 0x20
    ||| code == 0x85
    ||| code == 0xA0
    ||| code == 0x1680
    ||| 0x2000 <= code <= 0x200A
    ||| code == 0x2028
    ||| code == 0x2029
    ||| code == 0x202F
    ||| code == 0x205F
    ||| code == 0x3000
}

/// Whether `c` is white space.
pub fn is_whitespace(c: char) -> (white: bool)
    ensures
        white == is_whitespace_char(c),
{
    let code: u32 = c as u32;
    (0x09 <= code && code <= 0x0D) || code == 0x20 || code == 0x85 || code == 0xA0 || code
        == 0x1680 || (0x2000 <= code && code <= 0x200A) || code == 0x2028 || code == 0x2029
        || code == 0x202F || code == 0x205F || code == 0x3000
}

/// `text` without the white space that it starts with.
pub open spec fn trim_start(text: Seq<char>) -> Seq<char>
    decreases text.len(),
{
    if text.len() > 0 && is_whitespace_char(text[0]) {
        trim_start(text.drop_first())
    } else {
        text
    }
}

/// `text` without the white space that it ends with.
pub open spec fn trim_end(text: Seq<char>) -> Seq<char>
    decreases text.len(),
{
    if text.len() > 0 && is_whitespace_char(text.last()) {
        trim_end(text.drop_last())
    } else {
        text
    }
}

/// `text` without the white space at its two ends.
pub open spec fn trimmed(text: Seq<char>) -> Seq<char> {
    trim_end(trim_start(text))
}

/// The place of the first `wanted` in `text`, and the length of `text` where
/// there is none.
pub open spec fn index_of(text: Seq<char>, wanted: char) -> int
    decreases text.len(),
{
    if text.len() == 0 || text[0] == wanted {
        0
    } else {
        1 + index_of(text.drop_first(), wanted)
    }
}

/// `value` without the pair of double or single quotes around it, if it
/// stands in one.
pub open spec fn unquoted(value: Seq<char>) -> Seq<char> {
    if value.len() >= 2 && ((value[0] == '"' && value.last() == '"') || (value[0] == '\''
        && value.last() == '\'')) {
        value.subrange(1, value.len() - 1)
    } else {
        value
    }
}

/// The name and the value that a line assigns: what stands before the first
/// `=` and what stands after it, each without the white space at its ends,
/// the value without its quotes. A line without `=` or without a name
/// assigns nothing.
pub open spec fn env_assignment(line: Seq<char>) -> Option<(Seq<char>, Seq<char>)> {
    let at = index_of(line, '=');
    let key = trimmed(line.take(at));
    if at >= line.len() || key.len() == 0 {
        None
    } else {
        Some((key, unquoted(trimmed(line.skip(at + 1)))))
    }
}

/// The characters of `text`.
fn to_chars(text: &str) -> (chars: Vec<char>)
    ensures
        chars@ == text@,
{
    let len = text.unicode_len();
    let mut chars: Vec<char> = Vec::new();
    let mut i: usize = 0;
    while i < len
        invariant
            i <= len,
            len == text@.len(),
            chars@ == text@.take(i as int),
        decreases len - i,
    {
        chars.push(text.get_char(i));
        assert(chars@ == text@.take(i as int + 1));
        i += 1;
    }
    assert(text@.take(len as int) == text@);
    chars
}

/// Finds the first `wanted` among the characters from `from` up to `to`.
fn find_char(chars: &Vec<char>, from: usize, to: usize, wanted: char) -> (at: usize)
    requires
        from <= to <= chars.len(),
    ensures
        from <= at <= to,
        at - from == index_of(chars@.subrange(from as int, to as int), wanted),
        at < to ==> chars@[at as int] == wanted,
{
    let mut at: usize = from;
    while at < to && chars[at] != wanted
        invariant
            from <= at <= to <= chars.len(),
            index_of(chars@.subrange(from as int, to as int), wanted) == (at - from) + index_of(
                chars@.subrange(at as int, to as int),
                wanted,
            ),
        decreases to - at,
    {
        assert(chars@.subrange(at as int, to as int).drop_first() == chars@.subrange(
            at as int + 1,
            to as int,
        ));
        at += 1;
    }
    at
}

/// Finds the part of the characters from `from` up to `to` that is left
/// when the white space at the two ends is taken off.
fn trim_range(chars: &Vec<char>, from: usize, to: usize) -> (range: (usize, usize))
    requires
        from <= to <= chars.len(),
    ensures
        from <= range.0 <= range.1 <= to,
        chars@.subrange(range.0 as int, range.1 as int) == trimmed(
            chars@.subrange(from as int, to as int),
        ),
{
    let mut first: usize = from;
    while first < to && is_whitespace(chars[first])
        invariant
            from <= first <= to <= chars.len(),
            trim_start(chars@.subrange(from as int, to as int)) == trim_start(
                chars@.subrange(first as int, to as int),
            ),
        decreases to - first,
    {
        assert(chars@.subrange(first as int, to as int).drop_first() == chars@.subrange(
            first as int + 1,
            to as int,
        ));
        first += 1;
    }
    let mut last: usize = to;
    while last > first && is_whitespace(chars[last - 1])
        invariant
            first <= last <= to <= chars.len(),
            trim_end(chars@.subrange(first as int, to as int)) == trim_end(
                chars@.subrange(first as int, last as int),
            ),
        decreases last - first,
    {
        assert(chars@.subrange(first as int, last as int).drop_last() == chars@.subrange(
            first as int,
            last as int - 1,
        ));
        last -= 1;
    }
    (first, last)
}

/// Whether the characters from `from` up to `to` stand in a pair of double
/// or single quotes.
fn is_quoted(chars: &Vec<char>, from: usize, to: usize) -> (quoted: bool)
    requires
        from <= to <= chars.len(),
    ensures
        quoted ==> to - from >= 2 && unquoted(chars@.subrange(from as int, to as int))
            == chars@.subrange(from as int + 1, to as int - 1),
        !quoted ==> unquoted(chars@.subrange(from as int, to as int)) == chars@.subrange(
            from as int,
            to as int,
        ),
{
    if to - from < 2 {
        return false;
    }
    let opens = chars[from];
    let closes = chars[to - 1];
    let ghost value = chars@.subrange(from as int, to as int);
    assert(value[0] == opens && value.last() == closes);
    let quoted = (opens == '"' && closes == '"') || (opens == '\'' && closes == '\'');
    proof {
        if quoted {
            assert(value.subrange(1, value.len() - 1) == chars@.subrange(
                from as int + 1,
                to as int - 1,
            ));
        }
    }
    quoted
}

impl Config {
    /// Reads a line as the assignment of a value to a name.
    pub fn parse_env_line<'a>(line: &'a str) -> (pair: Option<(&'a str, &'a str)>)
        ensures
            match pair {
                Some((key, value)) => env_assignment(line@) == Some((key@, value@)),
                None => env_assignment(line@) is None,
            },
    {
        let chars = to_chars(line);
        let len = chars.len();
        assert(chars@.subrange(0, len as int) == line@);
        let at = find_char(&chars, 0, len, '=');
        let (key_from, key_to) = trim_range(&chars, 0, at);
        assert(chars@.subrange(0, at as int) == line@.take(at as int));
        if at >= len || key_from == key_to {
            return None;
        }
        let (value_from, value_to) = trim_range(&chars, at + 1, len);
        assert(chars@.subrange(at as int + 1, len as int) == line@.skip(at as int + 1));
        let key = line.substring_char(key_from, key_to);
        let value = if is_quoted(&chars, value_from, value_to) {
            line.substring_char(value_from + 1, value_to - 1)
        } else {
            line.substring_char(value_from, value_to)
        };
        Some((key, value))
    }
}

/// The lines of a text: what stands between its line feeds.
pub open spec fn split_lines(content: Seq<char>) -> Seq<Seq<char>>
    decreases content.len(),
{
    let at = index_of(content, '\n');
    if 0 <= at < content.len() {
        seq![content.take(at)] + split_lines(content.skip(at + 1))
    } else {
        seq![content]
    }
}

/// Whether a line, taken without the white space at its ends, says nothing:
/// it is empty or a comment.
pub open spec fn is_ignored(line: Seq<char>) -> bool {
    line.len() == 0 || line[0] == '#'
}

/// The digit that stands for a number below ten.
pub open spec fn digit_char(digit: nat) -> char {
    if digit == 0 {
        '0'
    } else if digit == 1 {
        '1'
    } else if digit == 2 {
        '2'
    } else if digit == 3 {
        '3'
    } else if digit == 4 {
        '4'
    } else if digit == 5 {
        '5'
    } else if digit == 6 {
        '6'
    } else if digit == 7 {
        '7'
    } else if digit == 8 {
        '8'
    } else {
        '9'
    }
}

/// A number written in digits.
pub open spec fn decimal_text(number: nat) -> Seq<char>
    decreases number,
{
    if number < 10 {
        seq![digit_char(number)]
    } else {
        decimal_text(number / 10).push(digit_char(number % 10))
    }
}

/// What is said of a line that assigns nothing.
pub open spec fn invalid_line_message(number: nat, line: Seq<char>) -> Seq<char> {
    "Invalid format at line "@ + decimal_text(number) + ": "@ + line
}

/// The assignments that a row of lines makes, in their order, or what is
/// said of the first line that is neither empty nor a comment and assigns
/// nothing. Lines are counted from one.
pub open spec fn assignments(lines: Seq<Seq<char>>) -> Result<
    Seq<(Seq<char>, Seq<char>)>,
    Seq<char>,
>
    decreases lines.len(),
{
    if lines.len() == 0 {
        Ok(Seq::empty())
    } else {
        match assignments(lines.drop_last()) {
            Err(message) => Err(message),
            Ok(earlier) => {
                let line = trimmed(lines.last());
                if is_ignored(line) {
                    Ok(earlier)
                } else {
                    match env_assignment(line) {
                        Some(pair) => Ok(earlier.push(pair)),
                        None => Err(invalid_line_message(lines.len(), line)),
                    }
                }
            },
        }
    }
}

/// The names and values of a row of assignments as sequences of characters.
pub open spec fn pair_views(pairs: Seq<(String, String)>) -> Seq<(Seq<char>, Seq<char>)> {
    pairs.map_values(|pair: (String, String)| (pair.0@, pair.1@))
}

/// The text of a digit.
fn digit_text(digit: u8) -> (text: &'static str)
    requires
        digit < 10,
    ensures
        text@ == seq![digit_char(digit as nat)],
{
    proof {
        reveal_strlit("0");
        reveal_strlit("1");
        reveal_strlit("2");
        reveal_strlit("3");
        reveal_strlit("4");
        reveal_strlit("5");
        reveal_strlit("6");
        reveal_strlit("7");
        reveal_strlit("8");
        reveal_strlit("9");
    }
    let text = if digit == 0 {
        "0"
    } else if digit == 1 {
        "1"
    } else if digit == 2 {
        "2"
    } else if digit == 3 {
        "3"
    } else if digit == 4 {
        "4"
    } else if digit == 5 {
        "5"
    } else if digit == 6 {
        "6"
    } else if digit == 7 {
        "7"
    } else if digit == 8 {
        "8"
    } else {
        "9"
    };
    assert(text@ =~= seq![digit_char(digit as nat)]);
    text
}

/// Writes `number` in digits.
pub fn decimal_string(number: u128) -> (text: String)
    ensures
        text@ == decimal_text(number as nat),
    decreases number,
{
    if number < 10 {
        String::from_str(digit_text(number as u8))
    } else {
        let mut text = decimal_string(number / 10);
        text.append(digit_text((number % 10) as u8));
        assert(text@ =~= decimal_text(number as nat));
        text
    }
}

impl Config {
    /// Reads the text of an environment file: one assignment on a line,
    /// empty lines and lines that start with `#` aside. Returns the
    /// assignments in their order, or a `ParseError` for the first line that
    /// cannot be read.
    pub fn parse_env_content(content: &str) -> (result: Result<Vec<(String, String)>, ConfigError>)
        ensures
            match result {
                Ok(pairs) => assignments(split_lines(content@)) == Ok::<
                    Seq<(Seq<char>, Seq<char>)>,
                    Seq<char>,
                >(pair_views(pairs@)),
                Err(error) => assignments(split_lines(content@)) matches Err(message) && error@
                    == ConfigErrorView::ParseError(message),
            },
    {
        let chars = to_chars(content);
        let len = chars.len();
        let mut pairs: Vec<(String, String)> = Vec::new();
        let mut start: usize = 0;
        let mut line_number: u128 = 1;
        let ghost mut done: Seq<Seq<char>> = Seq::empty();
        assert(chars@.skip(0) == chars@);
        assert(pair_views(pairs@) == Seq::<(Seq<char>, Seq<char>)>::empty());
        loop
            invariant_except_break
                start <= len,
                line_number == done.len() + 1,
                done.len() <= start,
                done + split_lines(chars@.skip(start as int)) == split_lines(chars@),
            invariant
                len == chars.len(),
                chars@ == content@,
                assignments(done) == Ok::<Seq<(Seq<char>, Seq<char>)>, Seq<char>>(
                    pair_views(pairs@),
                ),
            ensures
                done == split_lines(chars@),
            decreases len - start,
        {
            let at = find_char(&chars, start, len, '\n');
            let (line_from, line_to) = trim_range(&chars, start, at);
            let ghost rest = chars@.skip(start as int);
            let ghost raw = chars@.subrange(start as int, at as int);
            let ghost line = chars@.subrange(line_from as int, line_to as int);
            let ghost earlier = done;
            let ghost earlier_pairs = pair_views(pairs@);
            proof {
                assert(rest == chars@.subrange(start as int, len as int));
                assert(rest.take(at - start) == raw);
                done = done.push(raw);
                assert(done.drop_last() == earlier);
                assert(line == trimmed(done.last()));
            }
            if line_from < line_to && chars[line_from] != '#' {
                assert(!is_ignored(line));
                let line_text = content.substring_char(line_from, line_to);
                match Self::parse_env_line(line_text) {
                    Some((key, value)) => {
                        pairs.push((String::from_str(key), String::from_str(value)));
                        assert(pair_views(pairs@) == earlier_pairs.push((key@, value@)));
                    },
                    None => {
                        let mut message = String::from_str("Invalid format at line ");
                        let number = decimal_string(line_number);
                        message.append(number.as_str());
                        message.append(": ");
                        message.append(line_text);
                        proof {
                            assert(message@ == invalid_line_message(done.len(), line));
                            let lines = split_lines(chars@);
                            let tail = split_lines(rest);
                            if at >= len {
                                assert(rest.take(at - start) == rest);
                            }
                            assert(tail.len() > 0 && tail[0] == raw);
                            assert(lines == earlier + tail);
                            assert(lines.take(earlier.len() as int + 1) == done);
                            lemma_assignments_fail(done, lines, earlier.len() as int);
                        }
                        return Err(ConfigError::ParseError(message));
                    },
                }
            } else {
                assert(is_ignored(line));
            }
            if at >= len {
                proof {
                    assert(rest.take(at - start) == rest);
                    assert(split_lines(rest) == seq![rest]);
                    assert(earlier + seq![rest] == done);
                }
                break;
            }
            proof {
                assert(rest.skip(at - start + 1) == chars@.skip(at as int + 1));
                assert(earlier + (seq![raw] + split_lines(chars@.skip(at as int + 1))) == done
                    + split_lines(chars@.skip(at as int + 1)));
            }
            start = at + 1;
            line_number = line_number + 1;
        }
        Ok(pairs)
    }
}

/// A row of lines fails where a row that it starts with fails, with the same
/// words.
proof fn lemma_assignments_fail(head: Seq<Seq<char>>, lines: Seq<Seq<char>>, count: int)
    requires
        0 <= count < lines.len(),
        head == lines.take(count + 1),
        assignments(head) is Err,
    ensures
        assignments(lines) == assignments(head),
    decreases lines.len(),
{
    if count + 1 < lines.len() {
        assert(lines.drop_last().take(count + 1) == head);
        lemma_assignments_fail(head, lines.drop_last(), count);
    } else {
        assert(lines.take(count + 1) == lines);
    }
}

/// The characters of a text that may be missing.
pub open spec fn text_of(value: Option<String>) -> Option<Seq<char>> {
    match value {
        Some(text) => Some(text@),
        None => None,
    }
}

/// The settings that six values of the environment make, each of which may
/// be missing. The values are asked for in the order of the parameters, and
/// the first that is missing or is no number where one is needed decides the
/// error.
pub open spec fn built_config(
    solana_rpc_url: Option<Seq<char>>,
    solana_rpc_key: Option<Seq<char>>,
    server_port: Option<Seq<char>>,
    log_level: Option<Seq<char>>,
    monitor_interval_ms: Option<Seq<char>>,
    monitoring_depth: Option<Seq<char>>,
) -> Result<ConfigView, ConfigErrorView> {
    if solana_rpc_url is None {
        Err(ConfigErrorView::MissingVariable("SOLANA_RPC_URL"@))
    } else if solana_rpc_key is None {
        Err(ConfigErrorView::MissingVariable("SOLANA_RPC_KEY"@))
    } else if server_port is None {
        Err(ConfigErrorView::MissingVariable("SERVER_PORT"@))
    } else if parse_decimal(server_port->0, u16::MAX as int) is None {
        Err(ConfigErrorView::ParseError("Invalid SERVER_PORT value"@))
    } else if log_level is None {
        Err(ConfigErrorView::MissingVariable("LOG_LEVEL"@))
    } else if monitor_interval_ms is None {
        Err(ConfigErrorView::MissingVariable("MONITOR_INTERVAL_MS"@))
    } else if parse_decimal(monitor_interval_ms->0, u64::MAX as int) is None {
        Err(ConfigErrorView::ParseError("Invalid MONITOR_INTERVAL_MS value"@))
    } else if monitoring_depth is None {
        Err(ConfigErrorView::MissingVariable("MONITORING_DEPTH"@))
    } else if parse_decimal(monitoring_depth->0, usize::MAX as int) is None {
        Err(ConfigErrorView::ParseError("Invalid MONITORING_DEPTH value"@))
    } else {
        Ok(
            ConfigView {
                solana_rpc_url: solana_rpc_url->0,
                solana_rpc_key: solana_rpc_key->0,
                server_port: parse_decimal(server_port->0, u16::MAX as int)->0 as u16,
                log_level: log_level->0,
                monitor_interval_ms: parse_decimal(
                    monitor_interval_ms->0,
                    u64::MAX as int,
                )->0 as u64,
                monitoring_depth: parse_decimal(monitoring_depth->0, usize::MAX as int)->0 as usize,
            },
        )
    }
}

/// The error for a setting that is missing.
fn missing(name: &str) -> (error: ConfigError)
    ensures
        error@ == ConfigErrorView::MissingVariable(name@),
{
    ConfigError::MissingVariable(String::from_str(name))
}

/// The error for a setting that is no number.
fn invalid(complaint: &str) -> (error: ConfigError)
    ensures
        error@ == ConfigErrorView::ParseError(complaint@),
{
    ConfigError::ParseError(String::from_str(complaint))
}

impl Config {
    /// Makes the settings from the six values of the environment.
    pub fn build_config(
        solana_rpc_url: Option<String>,
        solana_rpc_key: Option<String>,
        server_port: Option<String>,
        log_level: Option<String>,
        monitor_interval_ms: Option<String>,
        monitoring_depth: Option<String>,
    ) -> (result: Result<Config, ConfigError>)
        ensures
            match result {
                Ok(config) => built_config(
                    text_of(solana_rpc_url),
                    text_of(solana_rpc_key),
                    text_of(server_port),
                    text_of(log_level),
                    text_of(monitor_interval_ms),
                    text_of(monitoring_depth),
                ) == Ok::<ConfigView, ConfigErrorView>(config@),
                Err(error) => built_config(
                    text_of(solana_rpc_url),
                    text_of(solana_rpc_key),
                    text_of(server_port),
                    text_of(log_level),
                    text_of(monitor_interval_ms),
                    text_of(monitoring_depth),
                ) == Err::<ConfigView, ConfigErrorView>(error@),
            },
    {
        let solana_rpc_url = match solana_rpc_url {
            Some(text) => text,
            None => {
                return Err(missing("SOLANA_RPC_URL"));
            },
        };
        let solana_rpc_key = match solana_rpc_key {
            Some(text) => text,
            None => {
                return Err(missing("SOLANA_RPC_KEY"));
            },
        };
        let server_port = match server_port {
            Some(text) => match parse_number(text.as_str(), u16::MAX as u64) {
                Some(number) => number as u16,
                None => {
                    return Err(invalid("Invalid SERVER_PORT value"));
                },
            },
            None => {
                return Err(missing("SERVER_PORT"));
            },
        };
        let log_level = match log_level {
            Some(text) => text,
            None => {
                return Err(missing("LOG_LEVEL"));
            },
        };
        let monitor_interval_ms = match monitor_interval_ms {
            Some(text) => match parse_number(text.as_str(), u64::MAX) {
                Some(number) => number,
                None => {
                    return Err(invalid("Invalid MONITOR_INTERVAL_MS value"));
                },
            },
            None => {
                return Err(missing("MONITOR_INTERVAL_MS"));
            },
        };
        let monitoring_depth = match monitoring_depth {
            Some(text) => match parse_number(text.as_str(), usize::MAX as u64) {
                Some(number) => number as usize,
                None => {
                    return Err(invalid("Invalid MONITORING_DEPTH value"));
                },
            },
            None => {
                return Err(missing("MONITORING_DEPTH"));
            },
        };
        Ok(
            Config {
                solana_rpc_url,
                solana_rpc_key,
                server_port,
                log_level,
                monitor_interval_ms,
                monitoring_depth,
            },
        )
    }
}

/// `ToString::to_string` of a `std::io::Error`: what the error says of
/// itself, which is for the system to word.
#[verifier::external_body]
fn io_error_text(error: &std::io::Error) -> String {
    error.to_string()
}

impl ConfigError {
    /// What the error says before its detail.
    pub open spec fn heading(&self) -> Seq<char> {
        match self {
            ConfigError::FileNotFound(_) => "Config file not found: "@,
            ConfigError::ParseError(_) => "Parse error: "@,
            ConfigError::MissingVariable(_) => "Missing required variable: "@,
            ConfigError::IoError(_) => "IO error: "@,
        }
    }

    /// The error in words: its heading, then the path, the complaint, the
    /// name, or what the system says of the failure.
    pub fn message(&self) -> (text: String)
        ensures
            match self {
                ConfigError::FileNotFound(detail) => text@ == self.heading() + detail@,
                ConfigError::ParseError(detail) => text@ == self.heading() + detail@,
                ConfigError::MissingVariable(detail) => text@ == self.heading() + detail@,
                ConfigError::IoError(_) => self.heading().is_prefix_of(text@),
            },
    {
        match self {
            ConfigError::FileNotFound(path) => {
                let mut text = String::from_str("Config file not found: ");
                text.append(path.as_str());
                text
            },
            ConfigError::ParseError(complaint) => {
                let mut text = String::from_str("Parse error: ");
                text.append(complaint.as_str());
                text
            },
            ConfigError::MissingVariable(key) => {
                let mut text = String::from_str("Missing required variable: ");
                text.append(key.as_str());
                text
            },
            ConfigError::IoError(error) => {
                let mut text = String::from_str("IO error: ");
                let detail = io_error_text(error);
                text.append(detail.as_str());
                assert(text@.subrange(0, self.heading().len() as int) == self.heading());
                text
            },
        }
    }
}

impl From<std::io::Error> for ConfigError {
    fn from(err: std::io::Error) -> (error: Self)
        ensures
            error@ == ConfigErrorView::IoError(err),
    {
        ConfigError::IoError(err)
    }
}

impl vstd::std_specs::convert::FromSpecImpl<std::io::Error> for ConfigError {
    open spec fn obeys_from_spec() -> bool {
        true
    }

    open spec fn from_spec(err: std::io::Error) -> Self {
        ConfigError::IoError(err)
    }
}

} // verus!
