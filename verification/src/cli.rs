//! Command-line decisions of `ponchi`: which command the arguments ask for and
//! with which options, the error for arguments it refuses, the output format an
//! output path names, and the scene shown before anything is posted.

use vstd::prelude::*;
use vstd::string::StrSliceExecFns;
use crate::strings::{chars_of, eq_ascii_ci, equals_ignore_ascii_case, push_all, str_equals, to_owned_string};
use crate::render::DEFAULT_FONT_FAMILY;
use crate::ieee::{finite32, Ieee32};
use crate::scene::{
    default_background, dup_before, edges_issue, first_issue, hex_color, is_hex_digit, nodes_issue,
    or_else, scene_valid, text_elem_issue, texts_issue, zones_issue, Canvas, Scene, Text,
    MAX_STRING_LEN, SCHEMA_VERSION,
};
use crate::strings::byte_len;
use vstd::utf8::{is_ascii_chars, is_ascii_chars_encode_utf8};

verus! {

/// Options of `ponchi render`.
pub struct RenderOptions {
    /// The scene file to read.
    pub input: String,
    /// The file to write; its extension picks the format.
    pub output: String,
    pub font_family: String,
    /// A directory of extra fonts.
    pub font_path: Option<String>,
}

/// Options of `ponchi serve`.
pub struct ServeOptions {
    /// `None`: let the operating system pick a free port.
    pub port: Option<u16>,
    pub font_family: String,
    /// A directory of extra fonts.
    pub font_path: Option<String>,
}

/// What the command line asks for.
pub enum Command {
    /// Print the usage text.
    Help,
    Render(RenderOptions),
    Serve(ServeOptions),
}

/// Why a port number was refused (the three ways `u16::from_str` fails).
#[derive(Debug, Clone, Copy, PartialEq, Eq)]
pub enum PortError {
    /// Nothing to parse.
    Empty,
    /// A character that is not a decimal digit.
    InvalidDigit,
    /// More than 65535.
    Overflow,
}

/// A command line that cannot be carried out.
#[derive(Debug)]
pub enum CliError {
    UnknownCommand(String),
    /// A flag (named here) is last, or followed by another `--` flag.
    MissingValue(String),
    UnexpectedArgument(String),
    MissingInput,
    MissingOutput,
    BadPort(PortError),
    /// The output path names neither `.png` nor `.svg`.
    BadOutput,
}

/// A [`CliError`] with its text as character sequences.
pub enum CliErrorView {
    UnknownCommand(Seq<char>),
    MissingValue(Seq<char>),
    UnexpectedArgument(Seq<char>),
    MissingInput,
    MissingOutput,
    BadPort(PortError),
    BadOutput,
}

impl View for CliError {
    type V = CliErrorView;

    open spec fn view(&self) -> CliErrorView {
        match self {
            CliError::UnknownCommand(c) => CliErrorView::UnknownCommand(c@),
            CliError::MissingValue(f) => CliErrorView::MissingValue(f@),
            CliError::UnexpectedArgument(a) => CliErrorView::UnexpectedArgument(a@),
            CliError::MissingInput => CliErrorView::MissingInput,
            CliError::MissingOutput => CliErrorView::MissingOutput,
            CliError::BadPort(k) => CliErrorView::BadPort(*k),
            CliError::BadOutput => CliErrorView::BadOutput,
        }
    }
}

/// The options gathered while scanning the arguments of a command.
pub struct Opts {
    pub input: Option<Seq<char>>,
    pub output: Option<Seq<char>>,
    pub port: Option<u16>,
    pub font_family: Seq<char>,
    pub font_path: Option<Seq<char>>,
}

/// A [`Command`] as the options it carries.
pub enum CommandView {
    Help,
    Render(Opts),
    Serve(Opts),
}

pub open spec fn opt_view(o: Option<String>) -> Option<Seq<char>> {
    match o {
        Some(s) => Some(s@),
        None => None,
    }
}

impl View for Command {
    type V = CommandView;

    open spec fn view(&self) -> CommandView {
        match self {
            Command::Help => CommandView::Help,
            Command::Render(o) => CommandView::Render(
                Opts {
                    input: Some(o.input@),
                    output: Some(o.output@),
                    port: None,
                    font_family: o.font_family@,
                    font_path: opt_view(o.font_path),
                },
            ),
            Command::Serve(o) => CommandView::Serve(
                Opts {
                    input: None,
                    output: None,
                    port: o.port,
                    font_family: o.font_family@,
                    font_path: opt_view(o.font_path),
                },
            ),
        }
    }
}

/// The arguments as character sequences.
pub open spec fn arg_views(args: Seq<String>) -> Seq<Seq<char>> {
    args.map_values(|s: String| s@)
}

/// The options before any argument is read.
pub open spec fn initial_opts() -> Opts {
    Opts {
        input: None,
        output: None,
        port: None,
        font_family: DEFAULT_FONT_FAMILY@,
        font_path: None,
    }
}

pub open spec fn starts_with_dash(a: Seq<char>) -> bool {
    a.len() > 0 && a[0] == '-'
}

pub open spec fn starts_with_two_dashes(a: Seq<char>) -> bool {
    a.len() >= 2 && a[0] == '-' && a[1] == '-'
}

/// The value of the flag at `i`: the next argument, unless there is none or
/// it is itself a `--` flag.
pub open spec fn flag_value(args: Seq<Seq<char>>, i: int) -> Option<Seq<char>> {
    if 0 <= i && i + 1 < args.len() && !starts_with_two_dashes(args[i + 1]) {
        Some(args[i + 1])
    } else {
        None
    }
}

pub open spec fn with_input(st: Opts, v: Seq<char>) -> Opts {
    Opts { input: Some(v), output: st.output, port: st.port, font_family: st.font_family, font_path: st.font_path }
}

pub open spec fn with_output(st: Opts, v: Seq<char>) -> Opts {
    Opts { input: st.input, output: Some(v), port: st.port, font_family: st.font_family, font_path: st.font_path }
}

pub open spec fn with_port(st: Opts, p: u16) -> Opts {
    Opts { input: st.input, output: st.output, port: Some(p), font_family: st.font_family, font_path: st.font_path }
}

pub open spec fn with_family(st: Opts, v: Seq<char>) -> Opts {
    Opts { input: st.input, output: st.output, port: st.port, font_family: v, font_path: st.font_path }
}

pub open spec fn with_font_path(st: Opts, v: Seq<char>) -> Opts {
    Opts { input: st.input, output: st.output, port: st.port, font_family: st.font_family, font_path: Some(v) }
}

/// The options of `render` gathered from argument `i` on: `-o`/`--out` takes
/// the output, `--font-family` and `--font-path` their values, the first
/// argument not starting with `-` is the input; anything else is refused.
pub open spec fn render_scan(args: Seq<Seq<char>>, i: int, st: Opts) -> Result<Opts, CliErrorView>
    decreases args.len() - i,
{
    if i < 0 || i >= args.len() {
        Ok(st)
    } else {
        let a = args[i];
        if a == "-o"@ || a == "--out"@ {
            match flag_value(args, i) {
                Some(v) => render_scan(args, i + 2, with_output(st, v)),
                None => Err(CliErrorView::MissingValue("-o"@)),
            }
        } else if a == "--font-family"@ {
            match flag_value(args, i) {
                Some(v) => render_scan(args, i + 2, with_family(st, v)),
                None => Err(CliErrorView::MissingValue("--font-family"@)),
            }
        } else if a == "--font-path"@ {
            match flag_value(args, i) {
                Some(v) => render_scan(args, i + 2, with_font_path(st, v)),
                None => Err(CliErrorView::MissingValue("--font-path"@)),
            }
        } else if st.input is None && !starts_with_dash(a) {
            render_scan(args, i + 1, with_input(st, a))
        } else {
            Err(CliErrorView::UnexpectedArgument(a))
        }
    }
}

/// The options of `serve` gathered from argument `i` on: `--port` takes a
/// port number, `--font-family` and `--font-path` their values; anything else
/// is refused.
pub open spec fn serve_scan(args: Seq<Seq<char>>, i: int, st: Opts) -> Result<Opts, CliErrorView>
    decreases args.len() - i,
{
    if i < 0 || i >= args.len() {
        Ok(st)
    } else {
        let a = args[i];
        if a == "--port"@ {
            match flag_value(args, i) {
                Some(v) => match port_value(v) {
                    Ok(p) => serve_scan(args, i + 2, with_port(st, p)),
                    Err(k) => Err(CliErrorView::BadPort(k)),
                },
                None => Err(CliErrorView::MissingValue("--port"@)),
            }
        } else if a == "--font-family"@ {
            match flag_value(args, i) {
                Some(v) => serve_scan(args, i + 2, with_family(st, v)),
                None => Err(CliErrorView::MissingValue("--font-family"@)),
            }
        } else if a == "--font-path"@ {
            match flag_value(args, i) {
                Some(v) => serve_scan(args, i + 2, with_font_path(st, v)),
                None => Err(CliErrorView::MissingValue("--font-path"@)),
            }
        } else {
            Err(CliErrorView::UnexpectedArgument(a))
        }
    }
}

/// The command the arguments (program name excluded) ask for.
pub open spec fn command_of(args: Seq<Seq<char>>) -> Result<CommandView, CliErrorView> {
    if args.len() == 0 || args[0] == "--help"@ || args[0] == "-h"@ {
        Ok(CommandView::Help)
    } else if args[0] == "render"@ {
        match render_scan(args, 1, initial_opts()) {
            Err(e) => Err(e),
            Ok(st) => if st.input is None {
                Err(CliErrorView::MissingInput)
            } else if st.output is None {
                Err(CliErrorView::MissingOutput)
            } else {
                Ok(CommandView::Render(st))
            },
        }
    } else if args[0] == "serve"@ {
        match serve_scan(args, 1, initial_opts()) {
            Err(e) => Err(e),
            Ok(st) => Ok(CommandView::Serve(st)),
        }
    } else {
        Err(CliErrorView::UnknownCommand(args[0]))
    }
}

/// `serve` takes `--font-path` as `render` does: the flag followed by a value
/// that is not another `--flag` sets the font path to that value, leaves every
/// other option as it was, and the reading goes on after the value.
pub proof fn lemma_font_path_flag_is_taken(args: Seq<Seq<char>>, i: int, st: Opts)
    requires
        0 <= i,
        i + 1 < args.len(),
        args[i] == "--font-path"@,
        !starts_with_two_dashes(args[i + 1]),
    ensures
        serve_scan(args, i, st) == serve_scan(
            args,
            i + 2,
            (Opts {
                input: st.input,
                output: st.output,
                port: st.port,
                font_family: st.font_family,
                font_path: Some(args[i + 1]),
            }),
        ),
        render_scan(args, i, st) == render_scan(
            args,
            i + 2,
            (Opts {
                input: st.input,
                output: st.output,
                port: st.port,
                font_family: st.font_family,
                font_path: Some(args[i + 1]),
            }),
        ),
{
    reveal_strlit("--font-path");
    reveal_strlit("--port");
    reveal_strlit("--font-family");
    reveal_strlit("-o");
    reveal_strlit("--out");
    assert(args[i].len() != "--port"@.len());
    assert(args[i].len() != "--font-family"@.len());
    assert(args[i].len() != "-o"@.len());
    assert(args[i].len() != "--out"@.len());
}

/// `serve --font-path DIR`, for any `DIR` that is not itself a `--flag`, is
/// the serve command with the font path `DIR` and every other option at its
/// default.
pub proof fn lemma_serve_with_font_path(dir: Seq<char>)
    requires
        !starts_with_two_dashes(dir),
    ensures
        command_of(seq!["serve"@, "--font-path"@, dir]) == Ok::<CommandView, CliErrorView>(
            CommandView::Serve(
                Opts {
                    input: None,
                    output: None,
                    port: None,
                    font_family: DEFAULT_FONT_FAMILY@,
                    font_path: Some(dir),
                },
            ),
        ),
{
    let args = seq!["serve"@, "--font-path"@, dir];
    reveal_strlit("serve");
    reveal_strlit("--help");
    reveal_strlit("-h");
    reveal_strlit("render");
    assert(args[0].len() != "--help"@.len());
    assert(args[0].len() != "-h"@.len());
    assert(args[0].len() != "render"@.len());
    lemma_font_path_flag_is_taken(args, 1, initial_opts());
    assert(serve_scan(args, 3, with_font_path(initial_opts(), dir)) == Ok::<Opts, CliErrorView>(
        with_font_path(initial_opts(), dir),
    ));
}

/// A command-line outcome as views.
pub open spec fn outcome_view(r: Result<Command, CliError>) -> Result<CommandView, CliErrorView> {
    match r {
        Ok(c) => Ok(c@),
        Err(e) => Err(e@),
    }
}

pub open spec fn is_digit(c: char) -> bool {
    '0' <= c && c <= '9'
}

pub open spec fn digit_value(c: char) -> int {
    (c as int) - ('0' as int)
}

/// Decimal digits read left to right onto `acc`, as `u16::from_str` reads
/// them: a non-digit is refused where it stands, and so is the first digit
/// that takes the value past 65535.
pub open spec fn scan_digits(d: Seq<char>, k: int, acc: int) -> Result<u16, PortError>
    decreases d.len() - k,
{
    if k < 0 || k >= d.len() {
        Ok(acc as u16)
    } else if !is_digit(d[k]) {
        Err(PortError::InvalidDigit)
    } else if acc * 10 + digit_value(d[k]) > 65535 {
        Err(PortError::Overflow)
    } else {
        scan_digits(d, k + 1, acc * 10 + digit_value(d[k]))
    }
}

/// A port number as `u16::from_str` reads it: an optional leading `+`, then
/// decimal digits.
pub open spec fn port_value(s: Seq<char>) -> Result<u16, PortError> {
    if s.len() == 0 {
        Err(PortError::Empty)
    } else if s[0] == '+' && s.len() == 1 {
        Err(PortError::InvalidDigit)
    } else if s[0] == '+' {
        scan_digits(s, 1, 0)
    } else {
        scan_digits(s, 0, 0)
    }
}

/// Read a port number.
pub fn parse_port(s: &str) -> (r: Result<u16, PortError>)
    ensures
        r == port_value(s@),
{
    let v = chars_of(s);
    if v.len() == 0 {
        return Err(PortError::Empty);
    }
    let mut k: usize = 0;
    if v[0] == '+' {
        if v.len() == 1 {
            return Err(PortError::InvalidDigit);
        }
        k = 1;
    }
    let ghost start = k as int;
    let mut acc: u32 = 0;
    while k < v.len()
        invariant
            v@ == s@,
            v@.len() > 0,
            start == (if v@[0] == '+' { 1int } else { 0int }),
            start <= k <= v@.len(),
            acc <= 65535,
            scan_digits(s@, start, 0) == scan_digits(s@, k as int, acc as int),
        decreases v@.len() - k,
    {
        let c = v[k];
        if !('0' <= c && c <= '9') {
            return Err(PortError::InvalidDigit);
        }
        let d = (c as u32) - ('0' as u32);
        if acc * 10 + d > 65535 {
            return Err(PortError::Overflow);
        }
        acc = acc * 10 + d;
        k += 1;
    }
    Ok(acc as u16)
}

/// The value following the flag at `*i`, advancing `*i` onto it; a flag at
/// or past the end, or followed by another `--flag`, has no value.
fn next_arg(args: &[String], i: &mut usize, flag: &str) -> (r: Result<String, CliError>)
    requires
        *old(i) < usize::MAX,
    ensures
        *final(i) == *old(i) + 1,
        match flag_value(arg_views(args@), *old(i) as int) {
            Some(v) => r matches Ok(s) && s@ == v,
            None => r matches Err(e) && e@ == CliErrorView::MissingValue(flag@),
        },
{
    let n = args.len();
    *i = *i + 1;
    if *i < n {
        let v = args[*i].as_str();
        let cs = chars_of(v);
        if !(cs.len() >= 2 && cs[0] == '-' && cs[1] == '-') {
            return Ok(to_owned_string(v));
        }
    }
    Err(CliError::MissingValue(to_owned_string(flag)))
}

fn starts_with_dash_exec(a: &str) -> (r: bool)
    ensures
        r == starts_with_dash(a@),
{
    let cs = chars_of(a);
    cs.len() > 0 && cs[0] == '-'
}

/// Read the arguments of `render` (those after the command word).
fn cmd_render(args: &[String]) -> (r: Result<Command, CliError>)
    requires
        args@.len() >= 1,
    ensures
        outcome_view(r) == (match render_scan(arg_views(args@), 1, initial_opts()) {
            Err(e) => Err(e),
            Ok(st) => if st.input is None {
                Err(CliErrorView::MissingInput)
            } else if st.output is None {
                Err(CliErrorView::MissingOutput)
            } else {
                Ok(CommandView::Render(st))
            },
        }),
{
    let ghost views = arg_views(args@);
    let mut input: Option<String> = None;
    let mut output: Option<String> = None;
    let mut font_family = to_owned_string(DEFAULT_FONT_FAMILY);
    let mut font_path: Option<String> = None;
    let mut i: usize = 1;
    while i < args.len()
        invariant
            views == arg_views(args@),
            1 <= i <= args@.len(),
            render_scan(views, 1, initial_opts()) == render_scan(
                views,
                i as int,
                Opts {
                    input: opt_view(input),
                    output: opt_view(output),
                    port: None,
                    font_family: font_family@,
                    font_path: opt_view(font_path),
                },
            ),
        decreases args@.len() - i,
    {
        let ghost st = Opts {
            input: opt_view(input),
            output: opt_view(output),
            port: None,
            font_family: font_family@,
            font_path: opt_view(font_path),
        };
        let ghost here = i as int;
        let a = args[i].as_str();
        assert(views[here] == a@);
        if str_equals(a, "-o") || str_equals(a, "--out") {
            let v = match next_arg(args, &mut i, "-o") {
                Ok(v) => v,
                Err(e) => {
                    return Err(e);
                },
            };
            output = Some(v);
        } else if str_equals(a, "--font-family") {
            let v = match next_arg(args, &mut i, "--font-family") {
                Ok(v) => v,
                Err(e) => {
                    return Err(e);
                },
            };
            font_family = v;
        } else if str_equals(a, "--font-path") {
            let v = match next_arg(args, &mut i, "--font-path") {
                Ok(v) => v,
                Err(e) => {
                    return Err(e);
                },
            };
            font_path = Some(v);
        } else if input.is_none() && !starts_with_dash_exec(a) {
            input = Some(to_owned_string(a));
        } else {
            return Err(CliError::UnexpectedArgument(to_owned_string(a)));
        }
        i = i + 1;
    }
    let ghost last = Opts {
        input: opt_view(input),
        output: opt_view(output),
        port: None,
        font_family: font_family@,
        font_path: opt_view(font_path),
    };
    assert(render_scan(views, i as int, last) == Ok::<Opts, CliErrorView>(last));
    match (input, output) {
        (Some(inp), Some(out)) => Ok(
            Command::Render(RenderOptions { input: inp, output: out, font_family, font_path }),
        ),
        (None, _) => Err(CliError::MissingInput),
        (Some(_), None) => Err(CliError::MissingOutput),
    }
}

/// Read the arguments of `serve` (those after the command word).
fn cmd_serve(args: &[String]) -> (r: Result<Command, CliError>)
    requires
        args@.len() >= 1,
    ensures
        outcome_view(r) == (match serve_scan(arg_views(args@), 1, initial_opts()) {
            Err(e) => Err(e),
            Ok(st) => Ok(CommandView::Serve(st)),
        }),
{
    let ghost views = arg_views(args@);
    let mut port: Option<u16> = None;
    let mut font_family = to_owned_string(DEFAULT_FONT_FAMILY);
    let mut font_path: Option<String> = None;
    let mut i: usize = 1;
    while i < args.len()
        invariant
            views == arg_views(args@),
            1 <= i <= args@.len(),
            serve_scan(views, 1, initial_opts()) == serve_scan(
                views,
                i as int,
                Opts {
                    input: None,
                    output: None,
                    port: port,
                    font_family: font_family@,
                    font_path: opt_view(font_path),
                },
            ),
        decreases args@.len() - i,
    {
        let ghost here = i as int;
        let a = args[i].as_str();
        assert(views[here] == a@);
        if str_equals(a, "--port") {
            let v = match next_arg(args, &mut i, "--port") {
                Ok(v) => v,
                Err(e) => {
                    return Err(e);
                },
            };
            match parse_port(v.as_str()) {
                Ok(p) => {
                    port = Some(p);
                },
                Err(k) => {
                    return Err(CliError::BadPort(k));
                },
            }
        } else if str_equals(a, "--font-family") {
            let v = match next_arg(args, &mut i, "--font-family") {
                Ok(v) => v,
                Err(e) => {
                    return Err(e);
                },
            };
            font_family = v;
        } else if str_equals(a, "--font-path") {
            let v = match next_arg(args, &mut i, "--font-path") {
                Ok(v) => v,
                Err(e) => {
                    return Err(e);
                },
            };
            font_path = Some(v);
        } else {
            return Err(CliError::UnexpectedArgument(to_owned_string(a)));
        }
        i = i + 1;
    }
    Ok(Command::Serve(ServeOptions { port, font_family, font_path }))
}

/// Read a command line (the program name excluded).
pub fn run(args: &[String]) -> (r: Result<Command, CliError>)
    ensures
        outcome_view(r) == command_of(arg_views(args@)),
{
    if args.len() == 0 {
        return Ok(Command::Help);
    }
    let first = args[0].as_str();
    assert(arg_views(args@)[0] == first@);
    if str_equals(first, "--help") || str_equals(first, "-h") {
        Ok(Command::Help)
    } else if str_equals(first, "render") {
        cmd_render(args)
    } else if str_equals(first, "serve") {
        cmd_serve(args)
    } else {
        Err(CliError::UnknownCommand(to_owned_string(first)))
    }
}


/// The index just after the last `c` in `p[lo..hi)`, or `lo` when there is
/// none.
pub open spec fn after_last(p: Seq<char>, lo: int, hi: int, c: char) -> int
    decreases hi - lo,
{
    if hi <= lo {
        lo
    } else if p[hi - 1] == c {
        hi
    } else {
        after_last(p, lo, hi - 1, c)
    }
}

/// Where the file name of `p[0..end)` lies, as `std::path::Path::file_name`
/// finds it on Unix: trailing `/` and `.` components are passed over, and a
/// final `..`, a bare root or nothing at all has no file name.
pub open spec fn name_bounds(p: Seq<char>, end: int) -> Option<(int, int)>
    decreases end,
{
    if end <= 0 || end > p.len() {
        None
    } else if p[end - 1] == '/' {
        name_bounds(p, end - 1)
    } else {
        let k = after_last(p, 0, end, '/');
        let seg = p.subrange(k, end);
        if seg == seq!['.'] {
            proof {
                lemma_after_last_below(p, 0, end, '/');
            }
            name_bounds(p, k)
        } else if seg == seq!['.', '.'] {
            None
        } else {
            Some((k, end))
        }
    }
}

/// The extension of a path, as `std::path::Path::extension` gives it on Unix:
/// what follows the last `.` of the file name, unless the name has no `.` or
/// its only `.` is its first character.
pub open spec fn extension_of(p: Seq<char>) -> Option<Seq<char>> {
    match name_bounds(p, p.len() as int) {
        Some((k, e)) => {
            let j = after_last(p, k, e, '.');
            if j == k || j == k + 1 {
                None
            } else {
                Some(p.subrange(j, e))
            }
        },
        None => None,
    }
}

/// The image formats `render` writes.
#[derive(Debug, Clone, Copy, PartialEq, Eq)]
pub enum OutputFormat {
    Svg,
    Png,
}

/// The format an output path names by its extension, ASCII case ignored.
pub open spec fn format_of(p: Seq<char>) -> Option<OutputFormat> {
    match extension_of(p) {
        Some(e) => if eq_ascii_ci(e, "svg"@) {
            Some(OutputFormat::Svg)
        } else if eq_ascii_ci(e, "png"@) {
            Some(OutputFormat::Png)
        } else {
            None
        },
        None => None,
    }
}

pub proof fn lemma_after_last_bounds(p: Seq<char>, lo: int, hi: int, c: char)
    requires
        lo <= hi,
    ensures
        lo <= after_last(p, lo, hi, c) <= hi,
    decreases hi - lo,
{
    if hi > lo && p[hi - 1] != c {
        lemma_after_last_bounds(p, lo, hi - 1, c);
    }
}

pub proof fn lemma_after_last_below(p: Seq<char>, lo: int, hi: int, c: char)
    requires
        lo < hi,
        p[hi - 1] != c,
    ensures
        lo <= after_last(p, lo, hi, c) < hi,
{
    lemma_after_last_bounds(p, lo, hi - 1, c);
}

/// The index just after the last `c` in `v[lo..hi)`, or `lo`.
fn find_after_last(v: &Vec<char>, lo: usize, hi: usize, c: char) -> (r: usize)
    requires
        lo <= hi <= v@.len(),
    ensures
        r == after_last(v@, lo as int, hi as int, c),
        lo <= r <= hi,
{
    let mut k = hi;
    while k > lo && v[k - 1] != c
        invariant
            lo <= k <= hi <= v@.len(),
            after_last(v@, lo as int, hi as int, c) == after_last(v@, lo as int, k as int, c),
        decreases k,
    {
        k -= 1;
    }
    k
}

/// Where the file name of the path `v` lies.
fn file_name_bounds(v: &Vec<char>) -> (r: Option<(usize, usize)>)
    ensures
        match r {
            Some((k, e)) => name_bounds(v@, v@.len() as int) == Some((k as int, e as int)) && k
                < e <= v@.len(),
            None => name_bounds(v@, v@.len() as int) is None,
        },
{
    let mut end = v.len();
    while end > 0
        invariant
            end <= v@.len(),
            name_bounds(v@, v@.len() as int) == name_bounds(v@, end as int),
        decreases end,
    {
        if v[end - 1] == '/' {
            end -= 1;
        } else {
            let k = find_after_last(v, 0, end, '/');
            let len = end - k;
            proof {
                lemma_after_last_below(v@, 0, end as int, '/');
            }
            if len == 1 && v[k] == '.' {
                proof {
                    assert(v@.subrange(k as int, end as int) =~= seq!['.']);
                }
                end = k;
            } else if len == 2 && v[k] == '.' && v[k + 1] == '.' {
                proof {
                    assert(v@.subrange(k as int, end as int) =~= seq!['.', '.']);
                }
                return None;
            } else {
                proof {
                    let seg = v@.subrange(k as int, end as int);
                    if seg == seq!['.'] {
                        assert(seq!['.'].len() == 1 && seq!['.'][0] == '.');
                        assert(seg.len() == 1 && seg[0] == v@[k as int]);
                    }
                    if seg == seq!['.', '.'] {
                        assert(seq!['.', '.'].len() == 2 && seq!['.', '.'][0] == '.' && seq![
                            '.',
                            '.',
                        ][1] == '.');
                        assert(seg.len() == 2 && seg[0] == v@[k as int] && seg[1] == v@[k + 1]);
                    }
                }
                return Some((k, end));
            }
        }
    }
    None
}

/// The format an output path names, if it names `.svg` or `.png`.
pub fn output_format(path: &str) -> (r: Option<OutputFormat>)
    ensures
        r == format_of(path@),
{
    let v = chars_of(path);
    match file_name_bounds(&v) {
        None => None,
        Some((k, e)) => {
            let j = find_after_last(&v, k, e, '.');
            if j == k || j == k + 1 {
                None
            } else {
                let ext = path.substring_char(j, e);
                if equals_ignore_ascii_case(ext, "svg") {
                    Some(OutputFormat::Svg)
                } else if equals_ignore_ascii_case(ext, "png") {
                    Some(OutputFormat::Png)
                } else {
                    None
                }
            }
        },
    }
}

/// The text of a port-number error (as `u16::from_str` words it).
pub open spec fn port_message(k: PortError) -> Seq<char> {
    match k {
        PortError::Empty => "cannot parse integer from empty string"@,
        PortError::InvalidDigit => "invalid digit found in string"@,
        PortError::Overflow => "number too large to fit in target type"@,
    }
}

/// The text of a command-line error.
pub open spec fn cli_message(e: CliErrorView) -> Seq<char> {
    match e {
        CliErrorView::UnknownCommand(c) => "unknown command: "@ + c,
        CliErrorView::MissingValue(f) => "missing value for "@ + f,
        CliErrorView::UnexpectedArgument(a) => "unexpected argument: "@ + a,
        CliErrorView::MissingInput => "missing <scene.json>"@,
        CliErrorView::MissingOutput => "missing -o <out.png|out.svg>"@,
        CliErrorView::BadPort(k) => port_message(k),
        CliErrorView::BadOutput => "output must end in .png or .svg"@,
    }
}

impl CliError {
    /// The human-readable message of the error.
    pub fn message(&self) -> (r: String)
        ensures
            r@ == cli_message(self@),
    {
        let mut out = String::new();
        match self {
            CliError::UnknownCommand(c) => {
                push_all(&mut out, "unknown command: ");
                push_all(&mut out, c.as_str());
            },
            CliError::MissingValue(f) => {
                push_all(&mut out, "missing value for ");
                push_all(&mut out, f.as_str());
            },
            CliError::UnexpectedArgument(a) => {
                push_all(&mut out, "unexpected argument: ");
                push_all(&mut out, a.as_str());
            },
            CliError::MissingInput => {
                push_all(&mut out, "missing <scene.json>");
            },
            CliError::MissingOutput => {
                push_all(&mut out, "missing -o <out.png|out.svg>");
            },
            CliError::BadPort(PortError::Empty) => {
                push_all(&mut out, "cannot parse integer from empty string");
            },
            CliError::BadPort(PortError::InvalidDigit) => {
                push_all(&mut out, "invalid digit found in string");
            },
            CliError::BadPort(PortError::Overflow) => {
                push_all(&mut out, "number too large to fit in target type");
            },
            CliError::BadOutput => {
                push_all(&mut out, "output must end in .png or .svg");
            },
        }
        proof {
            reveal_strlit("");
        }
        out
    }
}


/// The text of the hint shown on the starting scene.
pub open spec fn hint_text() -> Seq<char> {
    "POST a scene to /api/scene"@
}

/// A short ASCII string fits every string limit.
proof fn lemma_ascii_fits(s: Seq<char>)
    requires
        is_ascii_chars(s),
        s.len() <= MAX_STRING_LEN,
    ensures
        byte_len(s) <= MAX_STRING_LEN,
{
    is_ascii_chars_encode_utf8(s);
}

/// The scene shown before any scene is posted: an empty 800 by 400 white
/// canvas titled `ponchi` (seed 1) with one hint text at (40, 60). It passes
/// validation.
pub fn empty_scene() -> (s: Scene)
    ensures
        s.schema_version@ == SCHEMA_VERSION@,
        s.title@ == "ponchi"@,
        s.seed == 1,
        s.canvas.w == 800,
        s.canvas.h == 400,
        s.canvas.background@ == seq!['#', 'f', 'f', 'f', 'f', 'f', 'f'],
        s.nodes@.len() == 0,
        s.edges@.len() == 0,
        s.zones@.len() == 0,
        s.texts@.len() == 1,
        s.texts@[0].id@ == "hint"@,
        s.texts@[0].text@ == hint_text(),
        s.texts@[0].x.bits == 0x4220_0000,
        s.texts@[0].y.bits == 0x4270_0000,
        scene_valid(s),
{
    let hint = Text {
        id: to_owned_string("hint"),
        text: to_owned_string("POST a scene to /api/scene"),
        x: Ieee32 { bits: 0x4220_0000 },
        y: Ieee32 { bits: 0x4270_0000 },
    };
    let mut texts: Vec<Text> = Vec::new();
    texts.push(hint);
    let s = Scene {
        schema_version: to_owned_string(SCHEMA_VERSION),
        title: to_owned_string("ponchi"),
        seed: 1,
        canvas: Canvas { w: 800, h: 400, background: default_background() },
        nodes: Vec::new(),
        edges: Vec::new(),
        zones: Vec::new(),
        texts,
    };
    proof {
        reveal_strlit("hint");
        reveal_strlit("POST a scene to /api/scene");
        reveal_strlit("ponchi");
        let bg = s.canvas.background@;
        assert(hex_color(bg)) by {
            assert forall|i: int| 1 <= i < bg.len() implies #[trigger] is_hex_digit(bg[i]) by {
                assert(bg[i] == 'f');
            }
        }
        let t = s.texts@[0];
        assert(is_ascii_chars(t.id@));
        assert(is_ascii_chars(t.text@));
        assert(is_ascii_chars(s.title@));
        lemma_ascii_fits(t.id@);
        lemma_ascii_fits(t.text@);
        lemma_ascii_fits(s.title@);
        assert(finite32(t.x.bits)) by {
            assert(0x4220_0000u32 / 0x80_0000u32 == 0x84);
        }
        assert(finite32(t.y.bits)) by {
            assert(0x4270_0000u32 / 0x80_0000u32 == 0x84);
        }
        assert(!dup_before(s.texts@, 0));
        assert(text_elem_issue(s.texts@, 0) is None);
        let f = |i: int| text_elem_issue(s.texts@, i);
        assert(first_issue(1, f) == or_else(first_issue(0, f), f(0)));
        assert(texts_issue(s) is None);
        assert(nodes_issue(s) is None);
        assert(edges_issue(s) is None);
        assert(zones_issue(s) is None);
    }
    s
}

} // verus!
