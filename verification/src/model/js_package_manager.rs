//! The JavaScript package managers (pnpm, npm and yarn), whose commands are the `scripts` of
//! `package.json`.
use super::command::{command_line, command_views, CommandForExec, CommandWithPreview, CommandWithPreviewView};
use super::make::string_views;
use super::runner_type::{JsPackageManager as JsKind, RunnerType};
use crate::text::{split, split_on, trim, trim_of, before_first, chars_equal, copy_range, find_char, join, join_path, string_of, to_chars, words, words_of};
use vstd::prelude::*;
use vstd::utf8::encode_utf8;

verus! {

/// A JSON value as far as `package.json` is read: a string, an object whose members are listed
/// with the byte offset of their key and their value when it is a string, or anything else.
#[derive(Debug, PartialEq)]
pub enum JsonValue {
    String(String),
    Object(Vec<(String, usize, Option<String>)>),
    Other,
}

/// A member of the top-level object of `package.json`: its key, the byte offset of the key and
/// its value.
#[derive(Debug, PartialEq)]
pub struct JsonEntry {
    pub key: String,
    pub key_start: usize,
    pub value: JsonValue,
}

/// The value of a [`JsonValue`].
pub enum JsonValueView {
    String(Seq<char>),
    Object(Seq<(Seq<char>, usize, Option<Seq<char>>)>),
    Other,
}

/// The value of a [`JsonEntry`].
pub struct JsonEntryView {
    pub key: Seq<char>,
    pub key_start: usize,
    pub value: JsonValueView,
}

pub open spec fn opt_string_view(o: Option<String>) -> Option<Seq<char>> {
    match o {
        Some(s) => Some(s@),
        None => None,
    }
}

pub open spec fn member_views(m: Seq<(String, usize, Option<String>)>) -> Seq<
    (Seq<char>, usize, Option<Seq<char>>),
> {
    Seq::new(m.len(), |i: int| (m[i].0@, m[i].1, opt_string_view(m[i].2)))
}

impl View for JsonValue {
    type V = JsonValueView;

    open spec fn view(&self) -> JsonValueView {
        match self {
            JsonValue::String(s) => JsonValueView::String(s@),
            JsonValue::Object(m) => JsonValueView::Object(member_views(m@)),
            JsonValue::Other => JsonValueView::Other,
        }
    }
}

impl View for JsonEntry {
    type V = JsonEntryView;

    open spec fn view(&self) -> JsonEntryView {
        JsonEntryView { key: self.key@, key_start: self.key_start, value: self.value@ }
    }
}

pub open spec fn entry_views(s: Seq<JsonEntry>) -> Seq<JsonEntryView> {
    Seq::new(s.len(), |i: int| s[i]@)
}

/// The members of the top-level object that json-spanned-value reads from `content`, in the
/// order it gives them; `None` when `content` is not a JSON object.
pub uninterp spec fn package_json_entries(content: Seq<char>) -> Option<Seq<JsonEntryView>>;

/// The line, counted from 1, that `codespan::Files::line_index` gives for byte `byte` of
/// `content`: one more than the number of `\n` bytes of its UTF-8 encoding before that byte, the
/// byte being taken as a `u32`.
pub open spec fn line_at_byte(content: Seq<char>, byte: usize) -> u32 {
    let bytes = encode_utf8(content);
    let b = (byte as int) % 0x1_0000_0000;
    let end = if b < bytes.len() {
        b
    } else {
        bytes.len() as int
    };
    (1 + bytes.subrange(0, end).filter(|x: u8| x == 10u8).len()) as u32
}

/// The line of the member of `package.json` whose key starts at byte `byte`: [`line_at_byte`]
/// when the content is shorter than `u32::MAX` bytes, the most that codespan indexes, and 0
/// otherwise.
pub open spec fn key_line(content: Seq<char>, byte: usize) -> u32 {
    if encode_utf8(content).len() < u32::MAX {
        line_at_byte(content, byte)
    } else {
        0
    }
}

/// Reads `content` with `json_spanned_value::from_str` into a `spanned::Object` and lists its
/// members, and those of the members that are objects, as plain values.
#[verifier::external_body]
fn read_package_json(content: &str) -> (r: Option<Vec<JsonEntry>>)
    ensures
        match r {
            Some(es) => package_json_entries(content@) == Some(entry_views(es@)),
            None => package_json_entries(content@) == None::<Seq<JsonEntryView>>,
        },
{
    let object: json_spanned_value::spanned::Object = json_spanned_value::from_str(content).ok()?;
    Some(object.iter().map(|(k, v)| JsonEntry {
        key: k.get_ref().clone(),
        key_start: k.start(),
        value: match v.get_ref() {
            json_spanned_value::Value::String(s) => JsonValue::String(s.clone()),
            json_spanned_value::Value::Object(o) => JsonValue::Object(o.iter().map(|(k, v)|
                (k.get_ref().clone(), k.start(), v.as_string().map(str::to_string))).collect()),
            _ => JsonValue::Other,
        },
    }).collect())
}

/// `codespan::Files::line_index(..).number()` for byte `byte` of `content`. codespan lists the
/// line starts (0, and one past each `\n` byte) as `u32`s and finds the last one not after
/// `byte as u32` by binary search; for content shorter than `u32::MAX` bytes these starts are
/// exact and increasing, and the line fits in a `u32`.
#[verifier::external_body]
fn line_number_at(content: &str, byte: usize) -> (r: u32)
    requires
        encode_utf8(content@).len() < u32::MAX,
    ensures
        r == line_at_byte(content@, byte),
{
    let mut files = codespan::Files::new();
    let file = files.add("package.json", content);
    files.line_index(file, byte as u32).number().to_usize() as u32
}

/// The line of the member of `package.json` whose key starts at byte `byte`.
fn key_line_at(content: &String, byte: usize) -> (r: u32)
    ensures
        r == key_line(content@, byte),
{
    let text = content.as_str();
    let n = text.as_bytes().len();
    if n < 0xffff_ffffusize {
        line_number_at(text, byte)
    } else {
        0
    }
}

pub open spec fn kw_name() -> Seq<char> {
    seq!['n', 'a', 'm', 'e']
}

pub open spec fn kw_scripts() -> Seq<char> {
    seq!['s', 'c', 'r', 'i', 'p', 't', 's']
}

/// The index of the first member whose key is `scripts`, looking from `from` on.
pub open spec fn scripts_index(es: Seq<JsonEntryView>, from: int) -> Option<int>
    decreases es.len() - from,
{
    if from < 0 || from >= es.len() {
        None
    } else if es[from].key == kw_scripts() {
        Some(from)
    } else {
        scripts_index(es, from + 1)
    }
}

/// The package name set by the first `n` members: the value of the last `name` member whose
/// value is a string, or the empty name.
pub open spec fn name_in(es: Seq<JsonEntryView>, n: int) -> Seq<char>
    decreases n,
{
    if n <= 0 {
        seq![]
    } else {
        match es[n - 1].value {
            JsonValueView::String(s) => if es[n - 1].key == kw_name() {
                s
            } else {
                name_in(es, n - 1)
            },
            _ => name_in(es, n - 1),
        }
    }
}

/// The scripts among the first `n` members of the `scripts` object: those whose value is a
/// string, with the line of their key.
pub open spec fn scripts_in(content: Seq<char>, members: Seq<(Seq<char>, usize, Option<Seq<char>>)>, n: int) -> Seq<
    (Seq<char>, Seq<char>, u32),
>
    decreases n,
{
    if n <= 0 {
        seq![]
    } else {
        let earlier = scripts_in(content, members, n - 1);
        match members[n - 1].2 {
            Some(body) => earlier.push(
                (members[n - 1].0, body, key_line(content, members[n - 1].1)),
            ),
            None => earlier,
        }
    }
}

/// What `package.json` with the given content defines: the package name, set by the members
/// before `scripts`, and each script as its name, its body and the line of its name. `None` when
/// the content is not a JSON object.
pub open spec fn package_json_of(content: Seq<char>) -> Option<(Seq<char>, Seq<(Seq<char>, Seq<char>, u32)>)> {
    match package_json_entries(content) {
        None => None,
        Some(es) => match scripts_index(es, 0) {
            None => Some((name_in(es, es.len() as int), seq![])),
            Some(s) => Some(
                (
                    name_in(es, s),
                    match es[s].value {
                        JsonValueView::Object(members) => scripts_in(content, members, members.len() as int),
                        _ => seq![],
                    },
                ),
            ),
        },
    }
}

/// The values of a list of scripts.
pub open spec fn script_views(s: Seq<(String, String, u32)>) -> Seq<(Seq<char>, Seq<char>, u32)> {
    Seq::new(s.len(), |i: int| (s[i].0@, s[i].1@, s[i].2))
}

fn is_key(key: &String, word: &[char]) -> (r: bool)
    ensures
        r == (key@ == word@),
{
    let chars = to_chars(key.as_str());
    chars_equal(chars.as_slice(), word)
}

/// Reads `package.json`: the package name and the scripts, each as its name, its body and the
/// line on which its name stands. `None` when the content is not a JSON object.
pub fn parse_package_json(content: &String) -> (r: Option<(String, Vec<(String, String, u32)>)>)
    ensures
        match r {
            Some((name, scripts)) => package_json_of(content@) == Some((name@, script_views(scripts@))),
            None => package_json_of(content@) == None::<(Seq<char>, Seq<(Seq<char>, Seq<char>, u32)>)>,
        },
{
    let entries = match read_package_json(content.as_str()) {
        Some(es) => es,
        None => return None,
    };
    let ghost es = entry_views(entries@);
    let name_key = ['n', 'a', 'm', 'e'];
    let scripts_key = ['s', 'c', 'r', 'i', 'p', 't', 's'];
    assert(name_key@ =~= kw_name());
    assert(scripts_key@ =~= kw_scripts());
    let mut name = String::new();
    let mut i: usize = 0;
    while i < entries.len()
        invariant
            es == entry_views(entries@),
            package_json_entries(content@) == Some(es),
            name_key@ == kw_name(),
            scripts_key@ == kw_scripts(),
            i <= es.len(),
            name@ == name_in(es, i as int),
            scripts_index(es, 0) == scripts_index(es, i as int),
        decreases es.len() - i,
    {
        let entry = &entries[i];
        assert(es[i as int] == entry@);
        if is_key(&entry.key, &name_key) {
            match &entry.value {
                JsonValue::String(s) => {
                    name = s.clone();
                },
                _ => {},
            }
        }
        if is_key(&entry.key, &scripts_key) {
            assert(kw_name().len() != kw_scripts().len());
            assert(name@ == name_in(es, i as int));
            assert(scripts_index(es, i as int) == Some(i as int));
            let mut scripts: Vec<(String, String, u32)> = Vec::new();
            match &entry.value {
                JsonValue::Object(members) => {
                    let ghost mv = member_views(members@);
                    let mut j: usize = 0;
                    while j < members.len()
                        invariant
                            mv == member_views(members@),
                            j <= mv.len(),
                            script_views(scripts@) == scripts_in(content@, mv, j as int),
                        decreases mv.len() - j,
                    {
                        let (key, start, body) = &members[j];
                        assert(mv[j as int] == (key@, *start, opt_string_view(*body)));
                        match body {
                            Some(b) => {
                                let line = key_line_at(content, *start);
                                let ghost prev = script_views(scripts@);
                                scripts.push((key.clone(), b.clone(), line));
                                assert(script_views(scripts@) =~= prev.push((key@, b@, line)));
                            },
                            None => {},
                        }
                        j += 1;
                    }
                    assert(es[i as int].value == JsonValueView::Object(mv));
                    assert(script_views(scripts@) == scripts_in(content@, mv, mv.len() as int));
                },
                _ => {
                    assert(script_views(scripts@) =~= Seq::<(Seq<char>, Seq<char>, u32)>::empty());
                },
            }
            return Some((name, scripts));
        }
        i += 1;
    }
    let empty: Vec<(String, String, u32)> = Vec::new();
    assert(script_views(empty@) =~= Seq::<(Seq<char>, Seq<char>, u32)>::empty());
    Some((name, empty))
}

/// `run {script_name}`.
pub open spec fn npm_root_args(script_name: Seq<char>) -> Seq<char> {
    seq!['r', 'u', 'n', ' '] + script_name
}

/// `run {script_name} --workspace={package_name}`.
pub open spec fn npm_workspace_args(package_name: Seq<char>, script_name: Seq<char>) -> Seq<char> {
    seq!['r', 'u', 'n', ' '] + script_name + seq![
        ' ',
        '-',
        '-',
        'w',
        'o',
        'r',
        'k',
        's',
        'p',
        'a',
        'c',
        'e',
        '=',
    ] + package_name
}

/// `--filter {package_name} {script_name}`.
pub open spec fn pnpm_workspace_args(package_name: Seq<char>, script_name: Seq<char>) -> Seq<char> {
    seq!['-', '-', 'f', 'i', 'l', 't', 'e', 'r', ' '] + package_name + seq![' '] + script_name
}

/// `workspace {package_name} {script_name}`.
pub open spec fn yarn_workspace_args(package_name: Seq<char>, script_name: Seq<char>) -> Seq<char> {
    seq!['w', 'o', 'r', 'k', 's', 'p', 'a', 'c', 'e', ' '] + package_name + seq![' '] + script_name
}

/// npm.
pub struct Npm;

/// pnpm.
pub struct Pnpm;

/// yarn.
pub struct Yarn;

impl Npm {
    /// npm runs a script as `npm run {script_name}`.
    pub fn root_script_args(&self, script_name: &str) -> (r: String)
        ensures
            r@ == npm_root_args(script_name@),
    {
        let mut r = String::from_str("run ");
        r.append(script_name);
        proof {
            reveal_strlit("run ");
        }
        r
    }

    /// npm runs a script of a workspace package as
    /// `npm run {script_name} --workspace={package_name}`.
    pub fn workspace_script_args(&self, package_name: &str, script_name: &str) -> (r: String)
        ensures
            r@ == npm_workspace_args(package_name@, script_name@),
    {
        let mut r = String::from_str("run ");
        r.append(script_name);
        r.append(" --workspace=");
        r.append(package_name);
        proof {
            reveal_strlit("run ");
            reveal_strlit(" --workspace=");
        }
        assert(r@ =~= npm_workspace_args(package_name@, script_name@));
        r
    }
}

pub open spec fn kw_pnpm() -> Seq<char> {
    seq!['p', 'n', 'p', 'm']
}

pub open spec fn kw_run() -> Seq<char> {
    seq!['r', 'u', 'n']
}

/// The options with which pnpm runs a command in other packages.
pub open spec fn is_filter_option(arg: Seq<char>) -> bool {
    arg == seq!['-', 'F'] || arg == seq!['-', '-', 'f', 'i', 'l', 't', 'e', 'r'] || arg == seq![
        '-',
        'C',
    ] || arg == seq!['-', '-', 'd', 'i', 'r']
}

/// Whether a script body is `pnpm` with `-F`, `--filter`, `-C` or `--dir` and without `run`: a
/// script that only forwards to the scripts of other packages.
pub open spec fn uses_filtering(body: Seq<char>) -> bool {
    let args = words_of(body);
    &&& args.len() > 0 && args[0] == kw_pnpm()
    &&& exists|i: int| 0 <= i < args.len() && is_filter_option(#[trigger] args[i])
    &&& !args.contains(kw_run())
}

/// The value of a string of ASCII digits.
pub open spec fn digits_value(s: Seq<char>) -> nat
    decreases s.len(),
{
    if s.len() == 0 {
        0
    } else {
        digits_value(s.drop_last()) * 10 + ((s.last() as u32) - ('0' as u32)) as nat
    }
}

pub open spec fn is_digit(c: char) -> bool {
    '0' <= c && c <= '9'
}

/// The digits of a number: without the `+` sign that may lead it.
pub open spec fn unsigned_part(s: Seq<char>) -> Seq<char> {
    if s.len() > 0 && s[0] == '+' {
        s.drop_first()
    } else {
        s
    }
}

pub open spec fn all_digits(d: Seq<char>) -> bool {
    forall|i: int| 0 <= i < d.len() ==> is_digit(#[trigger] d[i])
}

/// `str::parse::<u32>`: an optional `+` and at least one ASCII digit, whose value fits.
pub open spec fn parse_u32(s: Seq<char>) -> Option<u32> {
    let d = unsigned_part(s);
    if d.len() > 0 && all_digits(d) && digits_value(d) <= u32::MAX {
        Some(digits_value(d) as u32)
    } else {
        None
    }
}

/// Whether the pnpm version, such as `11.0.1`, is 11 or later; an unreadable major version
/// counts as 0.
pub open spec fn is_version_11_or_higher(version: Seq<char>) -> bool {
    match parse_u32(before_first(version, '.')) {
        Some(major) => major >= 11,
        None => false,
    }
}

fn parse_u32_of(s: &[char]) -> (r: Option<u32>)
    ensures
        r == parse_u32(s@),
{
    let start: usize = if s.len() > 0 && s[0] == '+' {
        1
    } else {
        0
    };
    let ghost d = unsigned_part(s@);
    assert(d =~= s@.skip(start as int));
    if start >= s.len() {
        return None;
    }
    let mut value: u64 = 0;
    let mut i: usize = start;
    while i < s.len()
        invariant
            start <= i <= s@.len(),
            start < s@.len(),
            d == s@.skip(start as int),
            d == unsigned_part(s@),
            forall|k: int| start <= k < i ==> is_digit(s@[k]),
            value == digits_value(s@.subrange(start as int, i as int)),
            value <= u32::MAX,
        decreases s@.len() - i,
    {
        let c = s[i];
        if !('0' <= c && c <= '9') {
            assert(d[i - start] == s@[i as int]);
            assert(!is_digit(d[i - start]));
            assert(!all_digits(d));
            return None;
        }
        let digit = (c as u32 - '0' as u32) as u64;
        assert(s@.subrange(start as int, i + 1).drop_last() =~= s@.subrange(start as int, i as int));
        let next = value * 10 + digit;
        proof {
            let pre = s@.subrange(start as int, i + 1);
            assert(pre.last() == c);
            assert(digits_value(pre) == value * 10 + digit);
        }
        if next > 0xffff_ffffu64 {
            proof {
                let pre = s@.subrange(start as int, i + 1);
                if all_digits(d) {
                    assert(d.take(pre.len() as int) =~= pre);
                    lemma_digits_value_grows(pre, d);
                }
            }
            return None;
        }
        value = next;
        i += 1;
    }
    assert(s@.subrange(start as int, i as int) =~= d);
    assert forall|k: int| 0 <= k < d.len() implies is_digit(#[trigger] d[k]) by {
        assert(d[k] == s@[k + start]);
    }
    assert(all_digits(d));
    Some(value as u32)
}

proof fn lemma_digits_value_grows(prefix: Seq<char>, whole: Seq<char>)
    requires
        prefix.len() <= whole.len(),
        whole.take(prefix.len() as int) == prefix,
        forall|i: int| 0 <= i < whole.len() ==> is_digit(#[trigger] whole[i]),
    ensures
        digits_value(prefix) <= digits_value(whole),
    decreases whole.len(),
{
    if prefix.len() < whole.len() {
        assert(whole.drop_last().take(prefix.len() as int) == prefix);
        lemma_digits_value_grows(prefix, whole.drop_last());
    } else {
        assert(whole =~= prefix);
    }
}

impl Pnpm {
    /// pnpm runs a script as `pnpm {script_name}`.
    pub fn root_script_args(&self, script_name: &str) -> (r: String)
        ensures
            r@ == script_name@,
    {
        String::from_str(script_name)
    }

    /// pnpm runs a script of a workspace package as
    /// `pnpm --filter {package_name} {script_name}`.
    pub fn workspace_script_args(&self, package_name: &str, script_name: &str) -> (r: String)
        ensures
            r@ == pnpm_workspace_args(package_name@, script_name@),
    {
        let mut r = String::from_str("--filter ");
        r.append(package_name);
        r.append(" ");
        r.append(script_name);
        proof {
            reveal_strlit("--filter ");
            reveal_strlit(" ");
        }
        assert(r@ =~= pnpm_workspace_args(package_name@, script_name@));
        r
    }

    /// Whether the script only forwards to the scripts of other packages
    /// (<https://pnpm.io/filtering>).
    pub fn use_filtering(script_body: &str) -> (r: bool)
        ensures
            r == uses_filtering(script_body@),
    {
        let chars = to_chars(script_body);
        let args = words(chars.as_slice());
        let ghost av = crate::text::views(args@);
        let start_with_pnpm = args.len() > 0 && chars_equal(args[0].as_slice(), &['p', 'n', 'p', 'm']);
        proof {
            if args@.len() > 0 {
                assert(av[0] == args@[0]@);
            }
            assert(seq!['p', 'n', 'p', 'm'] =~= kw_pnpm());
        }
        let mut has_option = false;
        let mut has_run = false;
        let mut i: usize = 0;
        while i < args.len()
            invariant
                av == crate::text::views(args@),
                i <= av.len(),
                has_option == exists|k: int| 0 <= k < i && is_filter_option(#[trigger] av[k]),
                has_run == exists|k: int| 0 <= k < i && #[trigger] av[k] == kw_run(),
            decreases av.len() - i,
        {
            let a = args[i].as_slice();
            assert(av[i as int] == a@);
            if chars_equal(a, &['-', 'F']) || chars_equal(a, &['-', '-', 'f', 'i', 'l', 't', 'e', 'r'])
                || chars_equal(a, &['-', 'C']) || chars_equal(a, &['-', '-', 'd', 'i', 'r']) {
                has_option = true;
            }
            if chars_equal(a, &['r', 'u', 'n']) {
                has_run = true;
                assert(av[i as int] == kw_run());
            }
            i += 1;
        }
        proof {
            if av.contains(kw_run()) {
                let k = choose|k: int| 0 <= k < av.len() && av[k] == kw_run();
                assert(av[k] == kw_run());
            }
            if has_run {
                let k = choose|k: int| 0 <= k < av.len() && #[trigger] av[k] == kw_run();
                assert(av.contains(kw_run()));
            }
        }
        start_with_pnpm && has_option && !has_run
    }

    /// Whether pnpm `version`, as `pnpm --version` prints it, is 11 or later.
    pub fn is_pnpm_version_11_or_higher(version: &str) -> (r: bool)
        ensures
            r == is_version_11_or_higher(version@),
    {
        let chars = to_chars(version);
        let major = match find_char(chars.as_slice(), '.') {
            Some(i) => copy_range(chars.as_slice(), 0, i),
            None => copy_range(chars.as_slice(), 0, chars.len()),
        };
        assert(major@ =~= before_first(version@, '.'));
        match parse_u32_of(major.as_slice()) {
            Some(m) => m >= 11,
            None => false,
        }
    }

    /// Whether the script is hidden: pnpm 11 and later hide the scripts whose name starts with
    /// `.` (<https://pnpm.io/scripts#hidden-scripts>).
    pub fn is_hidden_script(script_name: &str, pnpm_version: &str) -> (r: bool)
        ensures
            r == (script_name@.len() > 0 && script_name@[0] == '.' && is_version_11_or_higher(
                pnpm_version@,
            )),
    {
        let chars = to_chars(script_name);
        chars.len() > 0 && chars[0] == '.' && Pnpm::is_pnpm_version_11_or_higher(pnpm_version)
    }
}

impl Yarn {
    /// yarn runs a script as `yarn {script_name}`.
    pub fn root_script_args(&self, script_name: &str) -> (r: String)
        ensures
            r@ == script_name@,
    {
        String::from_str(script_name)
    }

    /// yarn runs a script of a workspace package as
    /// `yarn workspace {package_name} {script_name}`.
    pub fn workspace_script_args(&self, package_name: &str, script_name: &str) -> (r: String)
        ensures
            r@ == yarn_workspace_args(package_name@, script_name@),
    {
        let mut r = String::from_str("workspace ");
        r.append(package_name);
        r.append(" ");
        r.append(script_name);
        proof {
            reveal_strlit("workspace ");
            reveal_strlit(" ");
        }
        assert(r@ =~= yarn_workspace_args(package_name@, script_name@));
        r
    }
}

/// A JavaScript package manager. The order in which they are tried is pnpm, npm, yarn.
#[derive(PartialEq, Eq, Structural, Clone, Copy, Debug)]
pub enum PackageManager {
    Pnpm,
    Npm,
    Yarn,
}

/// The runner type of a package manager.
pub open spec fn pm_runner_type(pm: PackageManager) -> RunnerType {
    match pm {
        PackageManager::Pnpm => RunnerType::JsPackageManager(JsKind::Pnpm),
        PackageManager::Npm => RunnerType::JsPackageManager(JsKind::Npm),
        PackageManager::Yarn => RunnerType::JsPackageManager(JsKind::Yarn),
    }
}

/// The lockfile that marks the root of a workspace.
pub open spec fn pm_lockfile(pm: PackageManager) -> Seq<char> {
    match pm {
        PackageManager::Pnpm => seq!['p', 'n', 'p', 'm', '-', 'l', 'o', 'c', 'k', '.', 'y', 'a', 'm', 'l'],
        PackageManager::Npm => seq![
            'p', 'a', 'c', 'k', 'a', 'g', 'e', '-', 'l', 'o', 'c', 'k', '.', 'j', 's', 'o', 'n',
        ],
        PackageManager::Yarn => seq!['y', 'a', 'r', 'n', '.', 'l', 'o', 'c', 'k'],
    }
}

/// The args that run a script of the root package.
pub open spec fn pm_root_args(pm: PackageManager, script_name: Seq<char>) -> Seq<char> {
    match pm {
        PackageManager::Npm => npm_root_args(script_name),
        _ => script_name,
    }
}

/// The args that run a script of another package of the workspace.
pub open spec fn pm_workspace_args(pm: PackageManager, package_name: Seq<char>, script_name: Seq<char>) -> Seq<char> {
    match pm {
        PackageManager::Pnpm => pnpm_workspace_args(package_name, script_name),
        PackageManager::Npm => npm_workspace_args(package_name, script_name),
        PackageManager::Yarn => yarn_workspace_args(package_name, script_name),
    }
}

/// Whether a script is left out of the list: for pnpm, one that only forwards to other
/// packages, or a hidden one when pnpm is 11 or later.
pub open spec fn pm_skips(pm: PackageManager, name: Seq<char>, body: Seq<char>, pnpm_version: Seq<char>) -> bool {
    match pm {
        PackageManager::Pnpm => uses_filtering(body) || (name.len() > 0 && name[0] == '.'
            && is_version_11_or_higher(pnpm_version)),
        _ => false,
    }
}

/// `package.json`.
pub open spec fn metadata_file_name() -> Seq<char> {
    seq!['p', 'a', 'c', 'k', 'a', 'g', 'e', '.', 'j', 's', 'o', 'n']
}

impl PackageManager {
    pub fn runner_type(&self) -> (r: RunnerType)
        ensures
            r == pm_runner_type(*self),
    {
        match self {
            PackageManager::Pnpm => RunnerType::JsPackageManager(JsKind::Pnpm),
            PackageManager::Npm => RunnerType::JsPackageManager(JsKind::Npm),
            PackageManager::Yarn => RunnerType::JsPackageManager(JsKind::Yarn),
        }
    }

    /// The name of the executable.
    pub fn program(&self) -> (r: String)
        ensures
            r@ == crate::model::runner_type::runner_name(pm_runner_type(*self)),
    {
        self.runner_type().to_string()
    }

    /// The name of the lockfile that marks the root of a workspace.
    pub fn lockfile_name(&self) -> (r: String)
        ensures
            r@ == pm_lockfile(*self),
    {
        let chars: Vec<char> = match self {
            PackageManager::Pnpm => vec!['p', 'n', 'p', 'm', '-', 'l', 'o', 'c', 'k', '.', 'y', 'a', 'm', 'l'],
            PackageManager::Npm => vec![
                'p', 'a', 'c', 'k', 'a', 'g', 'e', '-', 'l', 'o', 'c', 'k', '.', 'j', 's', 'o', 'n',
            ],
            PackageManager::Yarn => vec!['y', 'a', 'r', 'n', '.', 'l', 'o', 'c', 'k'],
        };
        proof {
            assert(chars@ =~= pm_lockfile(*self));
        }
        string_of(chars.as_slice())
    }

    /// The args that run a script of the package in the current directory.
    pub fn root_script_args(&self, script_name: &str) -> (r: String)
        ensures
            r@ == pm_root_args(*self, script_name@),
    {
        match self {
            PackageManager::Pnpm => Pnpm.root_script_args(script_name),
            PackageManager::Npm => Npm.root_script_args(script_name),
            PackageManager::Yarn => Yarn.root_script_args(script_name),
        }
    }

    /// The args that run a script of another package of the workspace.
    pub fn workspace_script_args(&self, package_name: &str, script_name: &str) -> (r: String)
        ensures
            r@ == pm_workspace_args(*self, package_name@, script_name@),
    {
        match self {
            PackageManager::Pnpm => Pnpm.workspace_script_args(package_name, script_name),
            PackageManager::Npm => Npm.workspace_script_args(package_name, script_name),
            PackageManager::Yarn => Yarn.workspace_script_args(package_name, script_name),
        }
    }

    /// Whether a script is left out of the list; `pnpm_version` is what `pnpm --version` printed.
    pub fn should_skip_script(&self, script_name: &str, script_body: &str, pnpm_version: &str) -> (r:
        bool)
        ensures
            r == pm_skips(*self, script_name@, script_body@, pnpm_version@),
    {
        match self {
            PackageManager::Pnpm => Pnpm::use_filtering(script_body) || Pnpm::is_hidden_script(
                script_name,
                pnpm_version,
            ),
            _ => false,
        }
    }
}

/// The commands of the first `n` scripts of a `package.json` at `path`, run with `args_of`.
pub open spec fn script_commands(
    pm: PackageManager,
    pnpm_version: Seq<char>,
    package_name: Option<Seq<char>>,
    path: Seq<char>,
    scripts: Seq<(Seq<char>, Seq<char>, u32)>,
    n: int,
) -> Seq<CommandWithPreviewView>
    decreases n,
{
    if n <= 0 {
        seq![]
    } else {
        let earlier = script_commands(pm, pnpm_version, package_name, path, scripts, n - 1);
        let (name, body, line) = scripts[n - 1];
        if pm_skips(pm, name, body, pnpm_version) {
            earlier
        } else {
            earlier.push(
                CommandWithPreviewView {
                    runner_type: pm_runner_type(pm),
                    args: match package_name {
                        Some(p) => pm_workspace_args(pm, p, name),
                        None => pm_root_args(pm, name),
                    },
                    file_path: path,
                    line_number: line,
                },
            )
        }
    }
}

/// The commands of the `package.json` at `path` with the given content; with a package name,
/// as scripts of that workspace package. `None` when the content is not a JSON object.
pub open spec fn package_commands(
    pm: PackageManager,
    pnpm_version: Seq<char>,
    workspace: bool,
    path: Seq<char>,
    content: Seq<char>,
) -> Option<Seq<CommandWithPreviewView>> {
    match package_json_of(content) {
        None => None,
        Some((name, scripts)) => Some(
            script_commands(
                pm,
                pnpm_version,
                if workspace {
                    Some(name)
                } else {
                    None
                },
                path,
                scripts,
                scripts.len() as int,
            ),
        ),
    }
}

fn push_script_commands(
    result: &mut Vec<CommandWithPreview>,
    pm: PackageManager,
    pnpm_version: &String,
    package_name: Option<&String>,
    path: &String,
    scripts: &Vec<(String, String, u32)>,
)
    ensures
        command_views(final(result)@) == command_views(old(result)@) + script_commands(
            pm,
            pnpm_version@,
            match package_name {
                Some(p) => Some(p@),
                None => None,
            },
            path@,
            script_views(scripts@),
            scripts@.len() as int,
        ),
{
    let ghost start = command_views(result@);
    let ghost pn = match package_name {
        Some(p) => Some(p@),
        None => None,
    };
    let ghost sv = script_views(scripts@);
    let mut i: usize = 0;
    while i < scripts.len()
        invariant
            sv == script_views(scripts@),
            pn == (match package_name {
                Some(p) => Some(p@),
                None => None::<Seq<char>>,
            }),
            i <= sv.len(),
            command_views(result@) == start + script_commands(pm, pnpm_version@, pn, path@, sv, i as int),
        decreases sv.len() - i,
    {
        let (name, body, line) = &scripts[i];
        assert(sv[i as int] == (name@, body@, *line));
        if !pm.should_skip_script(name.as_str(), body.as_str(), pnpm_version.as_str()) {
            let args = match package_name {
                Some(p) => pm.workspace_script_args(p.as_str(), name.as_str()),
                None => pm.root_script_args(name.as_str()),
            };
            let c = CommandWithPreview::new(pm.runner_type(), args, path.clone(), *line);
            let ghost prev = command_views(result@);
            result.push(c);
            assert(command_views(result@) =~= prev.push(c@));
        }
        i += 1;
    }
}

/// The commands of the `package.json` in `current_dir`, given its content, or `None` when it
/// could not be read or is not a JSON object.
pub fn collect_scripts_in_package_json(
    pm: PackageManager,
    current_dir: &String,
    content: Option<String>,
    pnpm_version: &String,
) -> (r: Option<Vec<CommandWithPreview>>)
    ensures
        match content {
            None => r is None,
            Some(c) => match r {
                Some(commands) => package_commands(
                    pm,
                    pnpm_version@,
                    false,
                    join_path(current_dir@, metadata_file_name()),
                    c@,
                ) == Some(command_views(commands@)),
                None => package_commands(
                    pm,
                    pnpm_version@,
                    false,
                    join_path(current_dir@, metadata_file_name()),
                    c@,
                ) is None,
            },
        },
{
    let content = match content {
        Some(c) => c,
        None => return None,
    };
    let file_name = string_of(&['p', 'a', 'c', 'k', 'a', 'g', 'e', '.', 'j', 's', 'o', 'n']);
    assert(file_name@ =~= metadata_file_name());
    let path = join(current_dir.as_str(), file_name.as_str());
    match parse_package_json(&content) {
        None => None,
        Some((_, scripts)) => {
            let mut result: Vec<CommandWithPreview> = Vec::new();
            push_script_commands(&mut result, pm, pnpm_version, None, &path, &scripts);
            assert(command_views(result@) =~= Seq::<CommandWithPreviewView>::empty() + script_commands(
                pm,
                pnpm_version@,
                None,
                path@,
                script_views(scripts@),
                scripts@.len() as int,
            ));
            Some(result)
        },
    }
}

/// A package of the workspace: the path of its `package.json`, whether that is the
/// `package.json` of the current directory, and its content when it could be read.
#[derive(Debug, PartialEq)]
pub struct WorkspacePackage {
    pub path: String,
    pub is_current: bool,
    pub content: Option<String>,
}

/// The commands of the first `n` packages of the workspace: each package other than the current
/// one whose `package.json` was read and is a JSON object gives its scripts.
pub open spec fn workspace_commands(
    pm: PackageManager,
    pnpm_version: Seq<char>,
    packages: Seq<WorkspacePackage>,
    n: int,
) -> Seq<CommandWithPreviewView>
    decreases n,
{
    if n <= 0 {
        seq![]
    } else {
        let earlier = workspace_commands(pm, pnpm_version, packages, n - 1);
        let p = packages[n - 1];
        if p.is_current {
            earlier
        } else {
            match p.content {
                None => earlier,
                Some(c) => match package_commands(pm, pnpm_version, true, p.path@, c@) {
                    None => earlier,
                    Some(cs) => earlier + cs,
                },
            }
        }
    }
}

/// The commands of the root package followed by those of the other packages of the workspace.
/// `packages` is `None` when the packages could not be listed, as outside a workspace.
pub fn collect_workspace_scripts(
    pm: PackageManager,
    current_dir: &String,
    root_content: Option<String>,
    packages: Option<Vec<WorkspacePackage>>,
    pnpm_version: &String,
) -> (r: Option<Vec<CommandWithPreview>>)
    ensures
        match root_content {
            None => r is None,
            Some(c) => match package_commands(
                pm,
                pnpm_version@,
                false,
                join_path(current_dir@, metadata_file_name()),
                c@,
            ) {
                None => r is None,
                Some(root) => match r {
                    None => false,
                    Some(commands) => command_views(commands@) == root + match packages {
                        None => seq![],
                        Some(ps) => workspace_commands(pm, pnpm_version@, ps@, ps@.len() as int),
                    },
                },
            },
        },
{
    let mut result = match collect_scripts_in_package_json(pm, current_dir, root_content, pnpm_version) {
        Some(r) => r,
        None => return None,
    };
    let ghost root = command_views(result@);
    let packages = match packages {
        Some(ps) => ps,
        None => {
            assert(command_views(result@) =~= root + Seq::<CommandWithPreviewView>::empty());
            return Some(result);
        },
    };
    let mut i: usize = 0;
    while i < packages.len()
        invariant
            i <= packages@.len(),
            command_views(result@) == root + workspace_commands(pm, pnpm_version@, packages@, i as int),
        decreases packages@.len() - i,
    {
        let p = &packages[i];
        if !p.is_current {
            match &p.content {
                Some(c) => match parse_package_json(c) {
                    Some((name, scripts)) => {
                        let ghost prev = command_views(result@);
                        push_script_commands(&mut result, pm, pnpm_version, Some(&name), &p.path, &scripts);
                        assert(command_views(result@) =~= root + workspace_commands(
                            pm,
                            pnpm_version@,
                            packages@,
                            i + 1,
                        ));
                    },
                    None => {},
                },
                None => {},
            }
        }
        i += 1;
    }
    Some(result)
}

/// The runner of a JavaScript package manager: the directory and the commands it found there.
#[derive(Debug, PartialEq)]
pub struct JsRunner {
    pub pm: PackageManager,
    pub path: String,
    pub commands: Vec<CommandWithPreview>,
}

/// Whether `names` holds `name`.
fn has_name(names: &Vec<String>, name: &String) -> (r: bool)
    ensures
        r == string_views(names@).contains(name@),
{
    let ghost ns = string_views(names@);
    let target = to_chars(name.as_str());
    let mut i: usize = 0;
    while i < names.len()
        invariant
            ns == string_views(names@),
            target@ == name@,
            i <= ns.len(),
            forall|k: int| 0 <= k < i ==> ns[k] != name@,
        decreases ns.len() - i,
    {
        let chars = to_chars(names[i].as_str());
        if chars_equal(chars.as_slice(), target.as_slice()) {
            assert(ns[i as int] == name@);
            return true;
        }
        i += 1;
    }
    false
}

/// What detection finds for a package manager in a directory whose files are `file_names`:
/// nothing without `package.json`; the scripts of the whole workspace when the lockfile is
/// there; the scripts of the package when it belongs to a workspace whose root is above it;
/// nothing otherwise.
pub open spec fn detected_commands(
    pm: PackageManager,
    current_dir: Seq<char>,
    file_names: Seq<Seq<char>>,
    is_workspace_member: bool,
    root_content: Option<Seq<char>>,
    packages: Option<Seq<WorkspacePackage>>,
    pnpm_version: Seq<char>,
) -> Option<Seq<CommandWithPreviewView>> {
    if !file_names.contains(metadata_file_name()) {
        None
    } else {
        match root_content {
            None => None,
            Some(c) => match package_commands(
                pm,
                pnpm_version,
                false,
                join_path(current_dir, metadata_file_name()),
                c,
            ) {
                None => None,
                Some(root) => if file_names.contains(pm_lockfile(pm)) {
                    Some(
                        root + match packages {
                            None => seq![],
                            Some(ps) => workspace_commands(pm, pnpm_version, ps, ps.len() as int),
                        },
                    )
                } else if is_workspace_member {
                    Some(root)
                } else {
                    None
                },
            },
        }
    }
}

/// Detects the package manager `pm` in `current_dir`, whose files are `cwd_file_names`, from
/// what was found on disk: whether the directory belongs to a workspace of `pm` rooted above it,
/// the content of its `package.json`, and the packages of the workspace (`None` when they could
/// not be listed).
pub fn detect(
    pm: PackageManager,
    current_dir: String,
    cwd_file_names: &Vec<String>,
    is_workspace_member: bool,
    root_content: Option<String>,
    packages: Option<Vec<WorkspacePackage>>,
    pnpm_version: &String,
) -> (r: Option<JsRunner>)
    ensures
        match r {
            Some(runner) => runner.pm == pm && runner.path@ == current_dir@ && detected_commands(
                pm,
                current_dir@,
                string_views(cwd_file_names@),
                is_workspace_member,
                opt_string_view(root_content),
                match packages {
                    Some(ps) => Some(ps@),
                    None => None,
                },
                pnpm_version@,
            ) == Some(command_views(runner.commands@)),
            None => detected_commands(
                pm,
                current_dir@,
                string_views(cwd_file_names@),
                is_workspace_member,
                opt_string_view(root_content),
                match packages {
                    Some(ps) => Some(ps@),
                    None => None,
                },
                pnpm_version@,
            ) is None,
        },
{
    let metadata = string_of(&['p', 'a', 'c', 'k', 'a', 'g', 'e', '.', 'j', 's', 'o', 'n']);
    assert(metadata@ =~= metadata_file_name());
    if !has_name(cwd_file_names, &metadata) {
        return None;
    }
    let lockfile = pm.lockfile_name();
    let ghost root_view = opt_string_view(root_content);
    let commands = if has_name(cwd_file_names, &lockfile) {
        collect_workspace_scripts(pm, &current_dir, root_content, packages, pnpm_version)
    } else if is_workspace_member {
        collect_scripts_in_package_json(pm, &current_dir, root_content, pnpm_version)
    } else {
        return None;
    };
    match commands {
        Some(commands) => Some(JsRunner { pm, path: current_dir, commands }),
        None => None,
    }
}

impl JsRunner {
    pub fn runner_type(&self) -> (r: RunnerType)
        ensures
            r == pm_runner_type(self.pm),
    {
        self.pm.runner_type()
    }

    /// The directory in which the package manager was found.
    pub fn path(&self) -> (r: String)
        ensures
            r@ == self.path@,
    {
        self.path.clone()
    }

    /// The commands it found.
    pub fn to_commands(&self) -> (r: Vec<CommandWithPreview>)
        ensures
            command_views(r@) == command_views(self.commands@),
    {
        crate::model::command::duplicate_commands(&self.commands)
    }

    /// `{program} {args}`.
    pub fn command_to_run(&self, command: &CommandForExec) -> (r: String)
        ensures
            r@ == command_line(pm_runner_type(self.pm), command.args@),
    {
        crate::model::command::format_command(self.pm.runner_type(), &command.args)
    }
}

/// The `package.json` of each directory that `pnpm -r exec pwd` printed, one per line, among the
/// first `n` lines.
pub open spec fn package_jsons_in_lines(lines: Seq<Seq<char>>, n: int) -> Seq<Seq<char>>
    decreases n,
{
    if n <= 0 {
        seq![]
    } else {
        let earlier = package_jsons_in_lines(lines, n - 1);
        if lines[n - 1].len() == 0 {
            earlier
        } else {
            earlier.push(join_path(lines[n - 1], metadata_file_name()))
        }
    }
}

impl Pnpm {
    /// The `package.json` of every package of the workspace, from the output of
    /// `pnpm -r exec pwd`: one directory per line.
    pub fn workspace_package_json_paths(output: &String) -> (r: Vec<String>)
        ensures
            string_views(r@) == package_jsons_in_lines(
                split_on(output@, '\n'),
                split_on(output@, '\n').len() as int,
            ),
    {
        let chars = to_chars(output.as_str());
        let lines = split(chars.as_slice(), '\n');
        let ghost lv = crate::text::views(lines@);
        let metadata = string_of(&['p', 'a', 'c', 'k', 'a', 'g', 'e', '.', 'j', 's', 'o', 'n']);
        assert(metadata@ =~= metadata_file_name());
        let mut r: Vec<String> = Vec::new();
        let mut i: usize = 0;
        while i < lines.len()
            invariant
                lv == crate::text::views(lines@),
                lv == split_on(output@, '\n'),
                metadata@ == metadata_file_name(),
                i <= lv.len(),
                string_views(r@) == package_jsons_in_lines(lv, i as int),
            decreases lv.len() - i,
        {
            assert(lv[i as int] == lines@[i as int]@);
            if lines[i].len() > 0 {
                let dir = string_of(lines[i].as_slice());
                let ghost prev = string_views(r@);
                r.push(join(dir.as_str(), metadata.as_str()));
                assert(string_views(r@) =~= prev.push(join_path(lv[i as int], metadata_file_name())));
            }
            i += 1;
        }
        r
    }
}

/// The major version of yarn, which decides the subcommand that lists the workspaces.
#[derive(Debug, PartialEq, Eq, Structural, Clone, Copy)]
pub enum YarnVersion {
    V1,
    V2OrLater,
}

/// The parts joined without separator.
pub open spec fn concat_all(parts: Seq<Seq<char>>) -> Seq<char>
    decreases parts.len(),
{
    if parts.len() == 0 {
        seq![]
    } else {
        concat_all(parts.drop_last()) + parts.last()
    }
}

/// The JSON in the output of `yarn workspaces info --json` (yarn 1): the lines between the first
/// one and the last two, joined. `None` when there are fewer than three lines.
pub open spec fn v1_workspaces_json(output: Seq<char>) -> Option<Seq<char>> {
    let lines = split_on(output, '\n');
    if lines.len() >= 3 {
        Some(concat_all(lines.subrange(1, lines.len() - 2)))
    } else {
        None
    }
}

impl Yarn {
    /// The version from what `yarn --version` printed: 1 when it starts with `1.`, later
    /// otherwise.
    pub fn version_of(output: &String) -> (r: YarnVersion)
        ensures
            r == (if trim_of(output@).len() >= 2 && trim_of(output@)[0] == '1' && trim_of(output@)[1]
                == '.' {
                YarnVersion::V1
            } else {
                YarnVersion::V2OrLater
            }),
    {
        let chars = to_chars(output.as_str());
        let t = trim(chars.as_slice());
        if t.len() >= 2 && t[0] == '1' && t[1] == '.' {
            YarnVersion::V1
        } else {
            YarnVersion::V2OrLater
        }
    }

    /// The `yarn workspaces` subcommand that lists the workspaces as JSON: `info` for yarn 1,
    /// `list` later.
    pub fn workspaces_subcommand(version: YarnVersion) -> (r: &'static str)
        ensures
            r@ == (match version {
                YarnVersion::V1 => seq!['i', 'n', 'f', 'o'],
                YarnVersion::V2OrLater => seq!['l', 'i', 's', 't'],
            }),
    {
        proof {
            reveal_strlit("info");
            reveal_strlit("list");
        }
        match version {
            YarnVersion::V1 => "info",
            YarnVersion::V2OrLater => "list",
        }
    }

    /// The JSON part of the output of `yarn workspaces info --json`, which yarn 1 prints between
    /// a header line and two trailing lines.
    pub fn workspaces_json_for_v1(output: &String) -> (r: Option<String>)
        ensures
            match r {
                Some(j) => v1_workspaces_json(output@) == Some(j@),
                None => v1_workspaces_json(output@) is None,
            },
    {
        let chars = to_chars(output.as_str());
        let lines = split(chars.as_slice(), '\n');
        let ghost lv = crate::text::views(lines@);
        if lines.len() < 3 {
            return None;
        }
        let last = lines.len() - 2;
        let mut joined: Vec<char> = Vec::new();
        let mut i: usize = 1;
        assert(lv.subrange(1, 1) =~= Seq::<Seq<char>>::empty());
        while i < last
            invariant
                lv == crate::text::views(lines@),
                1 <= i <= last,
                last == lv.len() - 2,
                joined@ == concat_all(lv.subrange(1, i as int)),
            decreases last - i,
        {
            let line = &lines[i];
            let mut j: usize = 0;
            let ghost before = joined@;
            assert(lv[i as int] == line@);
            while j < line.len()
                invariant
                    j <= line@.len(),
                    joined@ == before + line@.take(j as int),
                decreases line@.len() - j,
            {
                joined.push(line[j]);
                assert(line@.take(j + 1) =~= line@.take(j as int).push(line@[j as int]));
                j += 1;
            }
            assert(line@.take(j as int) =~= line@);
            assert(lv.subrange(1, i + 1).drop_last() =~= lv.subrange(1, i as int));
            i += 1;
        }
        Some(string_of(joined.as_slice()))
    }
}

/// Every listed script is one that the package manager does not skip: for pnpm, scripts that
/// only forward to other packages, and hidden scripts from pnpm 11 on, are never offered. Each
/// is listed with the args that run it and the line of its name.
pub proof fn law_skipped_scripts_are_not_listed(
    pm: PackageManager,
    pnpm_version: Seq<char>,
    package_name: Option<Seq<char>>,
    path: Seq<char>,
    scripts: Seq<(Seq<char>, Seq<char>, u32)>,
    n: int,
)
    requires
        0 <= n <= scripts.len(),
    ensures
        forall|k: int|
            #![trigger script_commands(pm, pnpm_version, package_name, path, scripts, n)[k]]
            0 <= k < script_commands(pm, pnpm_version, package_name, path, scripts, n).len() ==> exists|j: int|
                0 <= j < n && !pm_skips(pm, #[trigger] scripts[j].0, scripts[j].1, pnpm_version)
                    && script_commands(pm, pnpm_version, package_name, path, scripts, n)[k].line_number == scripts[j].2
                    && script_commands(pm, pnpm_version, package_name, path, scripts, n)[k].args == match package_name {
                        Some(p) => pm_workspace_args(pm, p, scripts[j].0),
                        None => pm_root_args(pm, scripts[j].0),
                    },
    decreases n,
{
    if n > 0 {
        law_skipped_scripts_are_not_listed(pm, pnpm_version, package_name, path, scripts, n - 1);
        let earlier = script_commands(pm, pnpm_version, package_name, path, scripts, n - 1);
        let cur = script_commands(pm, pnpm_version, package_name, path, scripts, n);
        assert forall|k: int| #![trigger cur[k]] 0 <= k < cur.len() implies exists|j: int|
            0 <= j < n && !pm_skips(pm, #[trigger] scripts[j].0, scripts[j].1, pnpm_version)
                && cur[k].line_number == scripts[j].2 && cur[k].args == match package_name {
                    Some(p) => pm_workspace_args(pm, p, scripts[j].0),
                    None => pm_root_args(pm, scripts[j].0),
                } by {
            if k < earlier.len() {
                assert(cur[k] == earlier[k]);
                let j = choose|j: int|
                    0 <= j < n - 1 && !pm_skips(pm, #[trigger] scripts[j].0, scripts[j].1, pnpm_version)
                        && earlier[k].line_number == scripts[j].2 && earlier[k].args == match package_name {
                            Some(p) => pm_workspace_args(pm, p, scripts[j].0),
                            None => pm_root_args(pm, scripts[j].0),
                        };
                assert(0 <= j < n);
            } else {
                let j = n - 1;
                assert(!pm_skips(pm, scripts[j].0, scripts[j].1, pnpm_version));
            }
        }
    }
}

/// The commands among the first `n` members of the `scripts` object, as the lockfile-based
/// runner reads them: every member, whatever its value, as a command of `runner_type` in `package.json` with
/// the line of its name.
pub open spec fn listed_scripts_in(
    content: Seq<char>,
    members: Seq<(Seq<char>, usize, Option<Seq<char>>)>,
    runner_type: RunnerType,
    n: int,
) -> Seq<CommandWithPreviewView>
    decreases n,
{
    if n <= 0 {
        seq![]
    } else {
        listed_scripts_in(content, members, runner_type, n - 1).push(
            CommandWithPreviewView {
                runner_type,
                args: members[n - 1].0,
                file_path: metadata_file_name(),
                line_number: key_line(content, members[n - 1].1),
            },
        )
    }
}

/// The commands that the lockfile-based runner reads from `package.json`: the members of its first
/// `scripts` object; none when the content is not a JSON object or has no such object.
pub open spec fn listed_scripts_of(content: Seq<char>, runner_type: RunnerType) -> Seq<CommandWithPreviewView> {
    match package_json_entries(content) {
        None => seq![],
        Some(es) => match scripts_index(es, 0) {
            None => seq![],
            Some(s) => match es[s].value {
                JsonValueView::Object(members) => listed_scripts_in(content, members, runner_type, members.len() as int),
                _ => seq![],
            },
        },
    }
}

/// The scripts of `package.json` as commands of `runner_type`, as the lockfile-based runner
/// reads them.
pub fn package_json_commands(content: &String, runner_type: RunnerType) -> (r: Vec<CommandWithPreview>)
    ensures
        command_views(r@) == listed_scripts_of(content@, runner_type),
{
    let mut result: Vec<CommandWithPreview> = Vec::new();
    let entries = match read_package_json(content.as_str()) {
        Some(es) => es,
        None => return result,
    };
    let ghost es = entry_views(entries@);
    let scripts_key = ['s', 'c', 'r', 'i', 'p', 't', 's'];
    assert(scripts_key@ =~= kw_scripts());
    let file_name = string_of(&['p', 'a', 'c', 'k', 'a', 'g', 'e', '.', 'j', 's', 'o', 'n']);
    assert(file_name@ =~= metadata_file_name());
    let mut i: usize = 0;
    while i < entries.len()
        invariant
            es == entry_views(entries@),
            package_json_entries(content@) == Some(es),
            scripts_key@ == kw_scripts(),
            file_name@ == metadata_file_name(),
            i <= es.len(),
            scripts_index(es, 0) == scripts_index(es, i as int),
            result@.len() == 0,
        decreases es.len() - i,
    {
        let entry = &entries[i];
        assert(es[i as int] == entry@);
        if is_key(&entry.key, &scripts_key) {
            assert(scripts_index(es, i as int) == Some(i as int));
            match &entry.value {
                JsonValue::Object(members) => {
                    let ghost mv = member_views(members@);
                    let mut j: usize = 0;
                    assert(command_views(result@) =~= listed_scripts_in(content@, mv, runner_type, 0));
                    while j < members.len()
                        invariant
                            mv == member_views(members@),
                            file_name@ == metadata_file_name(),
                            j <= mv.len(),
                            command_views(result@) == listed_scripts_in(content@, mv, runner_type, j as int),
                        decreases mv.len() - j,
                    {
                        let (key, start, _) = &members[j];
                        assert(mv[j as int].0 == key@ && mv[j as int].1 == *start);
                        let line = key_line_at(content, *start);
                        let c = CommandWithPreview::new(runner_type, key.clone(), file_name.clone(), line);
                        let ghost prev = command_views(result@);
                        result.push(c);
                        assert(command_views(result@) =~= prev.push(c@));
                        j += 1;
                    }
                    assert(es[i as int].value == JsonValueView::Object(mv));
                },
                _ => {
                    assert(command_views(result@) =~= Seq::<CommandWithPreviewView>::empty());
                },
            }
            return result;
        }
        i += 1;
    }
    assert(command_views(result@) =~= Seq::<CommandWithPreviewView>::empty());
    result
}

/// The lockfile-based JavaScript runner: pnpm, found by its lockfile, and yarn, which is not
/// supported.
#[derive(Debug, PartialEq)]
pub enum JsPackageManager {
    JsPnpm(crate::model::pnpm::Pnpm),
    JsYarn,
}

impl JsPackageManager {
    /// `pnpm {args}` for a command that pnpm defines; an error for any other command.
    pub fn command_to_run(&self, command: &CommandWithPreview) -> (r: Result<String, String>)
        requires
            *self is JsPnpm,
        ensures
            match r {
                Ok(s) => command_views(self->JsPnpm_0.commands@).contains(command@) && s@ == command_line(
                    RunnerType::JsPackageManager(JsKind::Pnpm),
                    command.args@,
                ),
                Err(e) => !command_views(self->JsPnpm_0.commands@).contains(command@) && e@
                    == "command not found"@,
            },
    {
        proof {
            reveal_strlit("command not found");
        }
        match self {
            JsPackageManager::JsPnpm(pnpm) => pnpm.command_to_run(command),
            JsPackageManager::JsYarn => Err(String::new()),
        }
    }

    /// The commands of pnpm.
    pub fn to_commands(&self) -> (r: Vec<CommandWithPreview>)
        requires
            *self is JsPnpm,
        ensures
            command_views(r@) == command_views(self->JsPnpm_0.commands@),
    {
        match self {
            JsPackageManager::JsPnpm(pnpm) => pnpm.to_commands(),
            JsPackageManager::JsYarn => Vec::new(),
        }
    }

    /// The `package.json` that pnpm reads.
    pub fn path(&self) -> (r: String)
        requires
            *self is JsPnpm,
        ensures
            r@ == self->JsPnpm_0.path@,
    {
        match self {
            JsPackageManager::JsPnpm(pnpm) => pnpm.path.clone(),
            JsPackageManager::JsYarn => String::new(),
        }
    }

    /// pnpm when the directory `current_dir`, whose entries are `file_names`, holds pnpm's
    /// lockfile, with the scripts of `package_json`, the content of its `package.json`; nothing
    /// when there is no lockfile or `package.json` could not be read.
    pub fn new(current_dir: String, file_names: Vec<String>, package_json: Option<String>) -> (r: Option<Self>)
        ensures
            match r {
                Some(m) => {
                    &&& string_views(file_names@).contains(pm_lockfile(PackageManager::Pnpm))
                    &&& package_json matches Some(c)
                    &&& m matches JsPackageManager::JsPnpm(p)
                    &&& p.path@ == join_path(current_dir@, metadata_file_name())
                    &&& command_views(p.commands@) == listed_scripts_of(
                        c@,
                        RunnerType::JsPackageManager(JsKind::Pnpm),
                    )
                },
                None => !string_views(file_names@).contains(pm_lockfile(PackageManager::Pnpm))
                    || package_json is None,
            },
    {
        let lockfile = PackageManager::Pnpm.lockfile_name();
        let ghost names = string_views(file_names@);
        let mut i: usize = 0;
        while i < file_names.len()
            invariant
                names == string_views(file_names@),
                lockfile@ == pm_lockfile(PackageManager::Pnpm),
                i <= names.len(),
                forall|k: int| 0 <= k < i ==> names[k] != lockfile@,
            decreases names.len() - i,
        {
            assert(names[i as int] == file_names@[i as int]@);
            if is_key(&file_names[i], to_chars(lockfile.as_str()).as_slice()) {
                let content = match &package_json {
                    Some(c) => c,
                    None => return None,
                };
                let commands = package_json_commands(content, RunnerType::JsPackageManager(JsKind::Pnpm));
                let file_name = string_of(&['p', 'a', 'c', 'k', 'a', 'g', 'e', '.', 'j', 's', 'o', 'n']);
                assert(file_name@ =~= metadata_file_name());
                let path = join(current_dir.as_str(), file_name.as_str());
                assert(names.contains(lockfile@));
                return Some(JsPackageManager::JsPnpm(crate::model::pnpm::Pnpm::new(path, commands)));
            }
            i += 1;
        }
        assert(!names.contains(lockfile@)) by {
            if names.contains(lockfile@) {
                let k = choose|k: int| 0 <= k < names.len() && names[k] == lockfile@;
                assert(names[k] != lockfile@);
            }
        }
        None
    }

    /// The runner type: pnpm.
    pub fn to_runner_type(&self) -> (r: RunnerType)
        requires
            *self is JsPnpm,
        ensures
            r == RunnerType::JsPackageManager(JsKind::Pnpm),
    {
        RunnerType::JsPackageManager(JsKind::Pnpm)
    }

    /// The args with which pnpm runs a script: `run` directly followed by its name.
    pub fn command_name_to_args(&self, command_name: &str) -> (r: String)
        requires
            *self is JsPnpm,
        ensures
            r@ == seq!['r', 'u', 'n'] + command_name@,
    {
        let mut chars: Vec<char> = Vec::new();
        chars.push('r');
        chars.push('u');
        chars.push('n');
        let name = to_chars(command_name);
        let mut i: usize = 0;
        while i < name.len()
            invariant
                i <= name@.len(),
                chars@ == seq!['r', 'u', 'n'] + name@.take(i as int),
            decreases name@.len() - i,
        {
            chars.push(name[i]);
            assert(name@.take(i + 1) =~= name@.take(i as int).push(name@[i as int]));
            i += 1;
        }
        assert(name@.take(name@.len() as int) =~= name@);
        string_of(chars.as_slice())
    }
}

/// The package name that `package.json` with the given content defines; empty when it is not
/// a JSON object.
pub open spec fn parsed_package_name(content: Seq<char>) -> Seq<char> {
    match package_json_of(content) {
        Some((name, _)) => name,
        None => seq![],
    }
}

/// The scripts that `package.json` with the given content defines; none when it is not a JSON
/// object.
pub open spec fn parsed_scripts(content: Seq<char>) -> Seq<(Seq<char>, Seq<char>, u32)> {
    match package_json_of(content) {
        Some((_, scripts)) => scripts,
        None => seq![],
    }
}

/// The command for script `script` of a package named `package_name`, at `path`, as the
/// workspace lists it.
pub open spec fn workspace_script_command(
    pm: PackageManager,
    package_name: Seq<char>,
    path: Seq<char>,
    script: (Seq<char>, Seq<char>, u32),
) -> CommandWithPreviewView {
    CommandWithPreviewView {
        runner_type: pm_runner_type(pm),
        args: pm_workspace_args(pm, package_name, script.0),
        file_path: path,
        line_number: script.2,
    }
}

proof fn lemma_script_listed(
    pm: PackageManager,
    pnpm_version: Seq<char>,
    package_name: Seq<char>,
    path: Seq<char>,
    scripts: Seq<(Seq<char>, Seq<char>, u32)>,
    n: int,
    j: int,
)
    requires
        0 <= j < n <= scripts.len(),
        !pm_skips(pm, scripts[j].0, scripts[j].1, pnpm_version),
    ensures
        script_commands(pm, pnpm_version, Some(package_name), path, scripts, n).contains(
            workspace_script_command(pm, package_name, path, scripts[j]),
        ),
    decreases n,
{
    let x = workspace_script_command(pm, package_name, path, scripts[j]);
    let earlier = script_commands(pm, pnpm_version, Some(package_name), path, scripts, n - 1);
    let cur = script_commands(pm, pnpm_version, Some(package_name), path, scripts, n);
    if j < n - 1 {
        lemma_script_listed(pm, pnpm_version, package_name, path, scripts, n - 1, j);
        let t = choose|t: int| 0 <= t < earlier.len() && earlier[t] == x;
        if !pm_skips(pm, scripts[n - 1].0, scripts[n - 1].1, pnpm_version) {
            assert(cur[t] == earlier[t]);
        }
        assert(cur[t] == x);
    } else {
        assert(cur[earlier.len() as int] == x);
    }
}

/// Whatever the package manager, every package of the workspace other than the current one,
/// whose `package.json` was read and is a JSON object, has each of its scripts that the package
/// manager does not skip listed: as a command of that package manager, with the args that run
/// the script in that package, pointing at the line of the script in that `package.json`.
pub proof fn law_workspace_packages_are_listed(
    pm: PackageManager,
    pnpm_version: Seq<char>,
    packages: Seq<WorkspacePackage>,
    n: int,
    k: int,
    j: int,
)
    requires
        0 <= k < n <= packages.len(),
        !packages[k].is_current,
        packages[k].content is Some,
        package_json_of(packages[k].content->0@) is Some,
        0 <= j < parsed_scripts(packages[k].content->0@).len(),
        !pm_skips(
            pm,
            parsed_scripts(packages[k].content->0@)[j].0,
            parsed_scripts(packages[k].content->0@)[j].1,
            pnpm_version,
        ),
    ensures
        workspace_commands(pm, pnpm_version, packages, n).contains(
            workspace_script_command(
                pm,
                parsed_package_name(packages[k].content->0@),
                packages[k].path@,
                parsed_scripts(packages[k].content->0@)[j],
            ),
        ),
    decreases n,
{
    let name = parsed_package_name(packages[k].content->0@);
    let scripts = parsed_scripts(packages[k].content->0@);
    let x = workspace_script_command(pm, name, packages[k].path@, scripts[j]);
    let earlier = workspace_commands(pm, pnpm_version, packages, n - 1);
    let cur = workspace_commands(pm, pnpm_version, packages, n);
    if k < n - 1 {
        law_workspace_packages_are_listed(pm, pnpm_version, packages, n - 1, k, j);
        let t = choose|t: int| 0 <= t < earlier.len() && earlier[t] == x;
        assert(cur.len() >= earlier.len());
        assert(cur.take(earlier.len() as int) =~= earlier);
        assert(cur[t] == x);
    } else {
        lemma_script_listed(pm, pnpm_version, name, packages[k].path@, scripts, scripts.len() as int, j);
        let cs = script_commands(pm, pnpm_version, Some(name), packages[k].path@, scripts, scripts.len() as int);
        assert(package_commands(pm, pnpm_version, true, packages[k].path@, packages[k].content->0@) == Some(cs));
        assert(cur == earlier + cs);
        let t = choose|t: int| 0 <= t < cs.len() && cs[t] == x;
        assert(cur[earlier.len() + t] == x);
    }
}

} // verus!
