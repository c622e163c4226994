//! What the user sees: colored messages, sizes and the table of volumes.

use crate::text;
use crate::types::ColorMode;
use crate::volume::VolumeInfo;
use vstd::prelude::*;

verus! {

pub const GREEN: &'static str = "\x1b[32m";

pub const RED: &'static str = "\x1b[31m";

pub const YELLOW: &'static str = "\x1b[33m";

pub const CYAN: &'static str = "\x1b[36m";

pub const RESET: &'static str = "\x1b[0m";

/// How a message is to be understood.
#[derive(Debug, Clone, Copy, PartialEq, Eq, Structural)]
pub enum Style {
    Plain,
    Good,
    Fail,
    Warn,
    Info,
    /// A plain line for the error output.
    Error,
}

/// A line for the user.
#[derive(Debug)]
pub struct Message {
    pub style: Style,
    pub text: String,
}

impl Message {
    /// The style and the text.
    pub open spec fn view(self) -> (Style, Seq<char>) {
        (self.style, self.text@)
    }

    /// A line for the user.
    pub fn new(style: Style, text: String) -> (message: Message)
        ensures
            message@ == (style, text@),
    {
        Message { style, text }
    }
}

/// The styles and texts of messages.
pub open spec fn contents(messages: Seq<Message>) -> Seq<(Style, Seq<char>)> {
    messages.map_values(|m: Message| m@)
}

/// Adds a line.
pub fn say(messages: &mut Vec<Message>, style: Style, text: String)
    ensures
        contents(final(messages)@) == contents(old(messages)@).push((style, text@)),
{
    messages.push(Message::new(style, text));
    assert(contents(messages@) =~= contents(old(messages)@).push((style, text@)));
}

/// How messages are shown.
#[derive(Debug, Clone, Copy)]
pub struct Console {
    color: bool,
    terminal: bool,
}

/// The text as it is shown, in the color that the code selects or in none.
pub open spec fn painted(color: bool, code: Seq<char>, message: Seq<char>) -> Seq<char> {
    if color {
        code + message + RESET@
    } else {
        message
    }
}

impl Console {
    /// Messages are colored.
    pub closed spec fn colored(self) -> bool {
        self.color
    }

    /// The output is a terminal.
    pub closed spec fn on_terminal(self) -> bool {
        self.terminal
    }

    /// A console on an output that is a terminal or not.
    pub fn new(mode: ColorMode, terminal: bool) -> (console: Self)
        ensures
            console.on_terminal() == terminal,
            console.colored() == match mode {
                ColorMode::Always => true,
                ColorMode::Never => false,
                ColorMode::Auto => terminal,
            },
    {
        let color: bool = match mode {
            ColorMode::Always => true,
            ColorMode::Never => false,
            ColorMode::Auto => terminal,
        };
        Console { color, terminal }
    }

    /// Tells whether live progress can be shown.
    pub fn progress_enabled(&self) -> (enabled: bool)
        ensures
            enabled == self.on_terminal(),
    {
        self.terminal
    }

    /// The text in a color, if messages are colored.
    pub fn paint(&self, code: &str, message: &str) -> (shown: String)
        ensures
            shown@ == painted(self.colored(), code@, message@),
    {
        if self.color {
            code.to_owned().concat(message).concat(RESET)
        } else {
            message.to_owned()
        }
    }

    /// A message of success.
    pub fn ok(&self, message: &str) -> (shown: String)
        ensures
            shown@ == painted(self.colored(), GREEN@, message@),
    {
        self.paint(GREEN, message)
    }

    /// A message of failure.
    pub fn fail(&self, message: &str) -> (shown: String)
        ensures
            shown@ == painted(self.colored(), RED@, message@),
    {
        self.paint(RED, message)
    }

    /// A warning.
    pub fn warn(&self, message: &str) -> (shown: String)
        ensures
            shown@ == painted(self.colored(), YELLOW@, message@),
    {
        self.paint(YELLOW, message)
    }

    /// A message on what happens.
    pub fn info(&self, message: &str) -> (shown: String)
        ensures
            shown@ == painted(self.colored(), CYAN@, message@),
    {
        self.paint(CYAN, message)
    }

    /// A message as it is shown.
    pub fn render(&self, message: &Message) -> (shown: String)
        ensures
            shown@ == match message.style {
                Style::Plain | Style::Error => message.text@,
                Style::Good => painted(self.colored(), GREEN@, message.text@),
                Style::Fail => painted(self.colored(), RED@, message.text@),
                Style::Warn => painted(self.colored(), YELLOW@, message.text@),
                Style::Info => painted(self.colored(), CYAN@, message.text@),
            },
    {
        let text = message.text.as_str();
        match message.style {
            Style::Plain | Style::Error => text.to_owned(),
            Style::Good => self.ok(text),
            Style::Fail => self.fail(text),
            Style::Warn => self.warn(text),
            Style::Info => self.info(text),
        }
    }

    /// The table of volumes, line by line.
    pub fn print_volumes(&self, volumes: &[VolumeInfo]) -> (lines: Vec<String>)
        ensures
            lines@.len() == volumes@.len() + 2,
            lines@[0]@ == row(
                "#"@,
                "Mount point"@,
                "Kind"@,
                "FS"@,
                "Total"@,
                "Free"@,
            ),
            lines@[1]@ == Seq::new(84, |i: int| '-'),
            forall|i: int|
                0 <= i < volumes@.len() ==> (#[trigger] lines@[i + 2])@ == volume_row(
                    i as nat,
                    volumes@[i],
                ),
    {
        let mut lines: Vec<String> = Vec::new();
        lines.push(table_row("#", "Mount point", "Kind", "FS", "Total", "Free"));
        let mut rule = String::new();
        text::push_right_aligned(&mut rule, "", 84, '-');
        assert(rule@ =~= Seq::new(84, |i: int| '-')) by {
            reveal_strlit("");
        }
        lines.push(rule);
        let mut i: usize = 0;
        while i < volumes.len()
            invariant
                i <= volumes@.len(),
                lines@.len() == i + 2,
                lines@[0]@ == row(
                    "#"@,
                    "Mount point"@,
                    "Kind"@,
                    "FS"@,
                    "Total"@,
                    "Free"@,
                ),
                lines@[1]@ == Seq::new(84, |i: int| '-'),
                forall|k: int|
                    0 <= k < i ==> (#[trigger] lines@[k + 2])@ == volume_row(
                        k as nat,
                        volumes@[k],
                    ),
            decreases volumes@.len() - i,
        {
            let volume = &volumes[i];
            let number = text::decimal_string(i as u64 + 1);
            let total = format_bytes(volume.total_bytes);
            let free = format_bytes(volume.free_bytes);
            let line = table_row(
                number.as_str(),
                volume.mount_point.as_str(),
                volume.kind.label(),
                volume.fs.as_str(),
                total.as_str(),
                free.as_str(),
            );
            lines.push(line);
            i += 1;
        }
        lines
    }
}

/// The table of volumes, line by line.
pub open spec fn table(volumes: Seq<VolumeInfo>) -> Seq<(Style, Seq<char>)> {
    seq![
        (Style::Plain, row("#"@, "Mount point"@, "Kind"@, "FS"@, "Total"@, "Free"@)),
        (Style::Plain, Seq::new(84, |i: int| '-')),
    ] + Seq::new(volumes.len(), |i: int| (Style::Plain, volume_row(i as nat, volumes[i])))
}

/// Adds the table of volumes.
pub fn say_volumes(messages: &mut Vec<Message>, console: &Console, volumes: &[VolumeInfo])
    ensures
        contents(final(messages)@) == contents(old(messages)@) + table(volumes@),
{
    let lines = console.print_volumes(volumes);
    let ghost before = contents(messages@);
    let mut i: usize = 0;
    assert(before =~= before + table(volumes@).take(0));
    while i < lines.len()
        invariant
            i <= lines@.len(),
            lines@.len() == volumes@.len() + 2,
            lines@[0]@ == row("#"@, "Mount point"@, "Kind"@, "FS"@, "Total"@, "Free"@),
            lines@[1]@ == Seq::new(84, |i: int| '-'),
            forall|k: int|
                0 <= k < volumes@.len() ==> (#[trigger] lines@[k + 2])@ == volume_row(
                    k as nat,
                    volumes@[k],
                ),
            contents(messages@) == before + table(volumes@).take(i as int),
        decreases lines@.len() - i,
    {
        say(messages, Style::Plain, lines[i].clone());
        proof {
            if i >= 2 {
                assert(lines@[(i - 2) + 2]@ == volume_row((i - 2) as nat, volumes@[i - 2]));
            }
            assert(table(volumes@)[i as int] == (Style::Plain, lines@[i as int]@));
        }
        i += 1;
        assert(contents(messages@) =~= before + table(volumes@).take(i as int));
    }
    assert(table(volumes@).take(i as int) =~= table(volumes@));
}

/// A row of the table of volumes.
pub open spec fn row(
    number: Seq<char>,
    mount_point: Seq<char>,
    kind: Seq<char>,
    fs: Seq<char>,
    total: Seq<char>,
    free: Seq<char>,
) -> Seq<char> {
    text::pad_right(number, 4, ' ') + " "@ + text::pad_right(mount_point, 28, ' ') + " "@
        + text::pad_right(kind, 12, ' ') + " "@ + text::pad_right(fs, 10, ' ') + " "@
        + text::pad_left(total, 12, ' ') + " "@ + text::pad_left(free, 12, ' ')
}

/// The row of the volume at an index.
pub open spec fn volume_row(index: nat, volume: VolumeInfo) -> Seq<char> {
    row(
        text::decimal(index + 1),
        volume.mount_point@,
        volume.kind.name(),
        volume.fs@,
        size_text(volume.total_bytes),
        size_text(volume.free_bytes),
    )
}

fn table_row(number: &str, mount_point: &str, kind: &str, fs: &str, total: &str, free: &str) -> (line:
    String)
    ensures
        line@ == row(number@, mount_point@, kind@, fs@, total@, free@),
{
    let mut line = String::new();
    text::push_left_aligned(&mut line, number, 4, ' ');
    assert(line@ =~= text::pad_right(number@, 4, ' '));
    line.append(" ");
    text::push_left_aligned(&mut line, mount_point, 28, ' ');
    line.append(" ");
    text::push_left_aligned(&mut line, kind, 12, ' ');
    line.append(" ");
    text::push_left_aligned(&mut line, fs, 10, ' ');
    line.append(" ");
    text::push_right_aligned(&mut line, total, 12, ' ');
    line.append(" ");
    text::push_right_aligned(&mut line, free, 12, ' ');
    line
}

/// The quotient rounded to the nearest whole number, and to the even one of
/// two that are equally near.
pub open spec fn rounded(n: nat, d: nat) -> nat {
    let q = n / d;
    let r = n % d;
    if 2 * r < d || (2 * r == d && q % 2 == 0) {
        q
    } else {
        q + 1
    }
}

/// The distance between neighboring numbers of 53 significant bits around `n`.
pub open spec fn spacing(n: nat) -> nat
    decreases n,
{
    if n < 0x20_0000_0000_0000 {
        1
    } else {
        2 * spacing(n / 2)
    }
}

/// The number of 53 significant bits that is nearest to `n`: the precision of a
/// double.
pub open spec fn at_double_precision(n: nat) -> nat {
    rounded(n, spacing(n)) * spacing(n)
}

/// How many times a size can be divided by 1024 before it is below 1024, up to
/// the largest unit.
pub open spec fn unit_of(size: nat) -> nat {
    if size < 0x400 {
        0
    } else if size < 0x10_0000 {
        1
    } else if size < 0x4000_0000 {
        2
    } else if size < 0x100_0000_0000 {
        3
    } else if size < 0x4_0000_0000_0000 {
        4
    } else {
        5
    }
}

/// The bytes in a unit.
pub open spec fn unit_size(unit: nat) -> nat {
    if unit == 0 {
        1
    } else if unit == 1 {
        0x400
    } else if unit == 2 {
        0x10_0000
    } else if unit == 3 {
        0x4000_0000
    } else if unit == 4 {
        0x100_0000_0000
    } else {
        0x4_0000_0000_0000
    }
}

/// The name of a unit.
pub open spec fn unit_name(unit: nat) -> Seq<char> {
    if unit == 0 {
        "B"@
    } else if unit == 1 {
        "KiB"@
    } else if unit == 2 {
        "MiB"@
    } else if unit == 3 {
        "GiB"@
    } else if unit == 4 {
        "TiB"@
    } else {
        "PiB"@
    }
}

/// A size in its unit with two decimals, computed at double precision; sizes
/// below 1 KiB are whole bytes.
pub open spec fn size_text(bytes: u64) -> Seq<char> {
    let size = at_double_precision(bytes as nat);
    let unit = unit_of(size);
    if unit == 0 {
        text::decimal(bytes as nat) + " "@ + unit_name(0)
    } else {
        let hundredths = rounded(size * 100, unit_size(unit));
        text::decimal(hundredths / 100) + "."@ + text::padded_decimal(hundredths % 100, 2) + " "@
            + unit_name(unit)
    }
}

fn rounded_quotient(n: u128, d: u128) -> (q: u128)
    requires
        0 < d <= 0x4_0000_0000_0000,
        n <= 0x100_0000_0000_0000_0000,
    ensures
        q == rounded(n as nat, d as nat),
        q * d <= n + d,
{
    let q: u128 = n / d;
    let r: u128 = n % d;
    proof {
        vstd::arithmetic::div_mod::lemma_fundamental_div_mod(n as int, d as int);
        assert(q <= n && q * d <= n && (q + 1) * d <= n + d) by (nonlinear_arith)
            requires
                n == d * q + r,
                0 <= r < d,
                0 < d,
                0 <= q,
        ;
    }
    if 2 * r < d || (2 * r == d && q % 2 == 0) {
        q
    } else {
        q + 1
    }
}

fn spacing_of(n: u64) -> (step: u64)
    ensures
        step == spacing(n as nat),
        1 <= step,
        n < 0x10_0000_0000_0000 ==> step == 1,
        n >= 0x10_0000_0000_0000 ==> step * 0x10_0000_0000_0000 <= n,
    decreases n,
{
    if n < 0x20_0000_0000_0000 {
        1
    } else {
        let half: u64 = spacing_of(n / 2);
        2 * half
    }
}

/// A size at double precision.
fn double_of(bytes: u64) -> (size: u128)
    ensures
        size == at_double_precision(bytes as nat),
        size <= 0x1_0000_0000_0000_1000,
{
    let step: u128 = spacing_of(bytes) as u128;
    let q: u128 = rounded_quotient(bytes as u128, step);
    assert(step <= 0x1000);
    q * step
}

/// A size for display.
pub fn format_bytes(bytes: u64) -> (shown: String)
    ensures
        shown@ == size_text(bytes),
{
    let size: u128 = double_of(bytes);
    let mut shown = String::new();
    if size < 0x400 {
        text::push_decimal(&mut shown, bytes);
        shown.append(" ");
        shown.append("B");
        assert(shown@ =~= size_text(bytes));
        return shown;
    }
    let (unit, name): (u128, &'static str) = if size < 0x10_0000 {
        (0x400, "KiB")
    } else if size < 0x4000_0000 {
        (0x10_0000, "MiB")
    } else if size < 0x100_0000_0000 {
        (0x4000_0000, "GiB")
    } else if size < 0x4_0000_0000_0000 {
        (0x100_0000_0000, "TiB")
    } else {
        (0x4_0000_0000_0000, "PiB")
    };
    let hundredths: u128 = rounded_quotient(size * 100, unit);
    proof {
        assert(unit == unit_size(unit_of(size as nat)));
        assert(hundredths <= 0x1000_0000_0000) by {
            if unit == 0x400 {
                assert(hundredths * 0x400 <= size * 100 + 0x400);
            } else if unit == 0x10_0000 {
                assert(hundredths * 0x10_0000 <= size * 100 + 0x10_0000);
            } else if unit == 0x4000_0000 {
                assert(hundredths * 0x4000_0000 <= size * 100 + 0x4000_0000);
            } else if unit == 0x100_0000_0000 {
                assert(hundredths * 0x100_0000_0000 <= size * 100 + 0x100_0000_0000);
            } else {
                assert(hundredths * 0x4_0000_0000_0000 <= size * 100 + 0x4_0000_0000_0000);
            }
        }
    }
    text::push_decimal(&mut shown, (hundredths / 100) as u64);
    shown.append(".");
    text::push_padded_decimal(&mut shown, (hundredths % 100) as u64, 2);
    shown.append(" ");
    shown.append(name);
    assert(shown@ =~= size_text(bytes));
    shown
}

/// A rounded quotient is off by half of the divisor at most.
pub proof fn rounding_is_to_the_nearest(n: nat, d: nat)
    requires
        d > 0,
    ensures
        2 * (rounded(n, d) * d - n) <= d,
        2 * (n - rounded(n, d) * d) <= d,
        2 * (n - rounded(n, d) * d) == d || 2 * (rounded(n, d) * d - n) == d ==> rounded(n, d) % 2
            == 0,
{
    let q = n / d;
    let r = n % d;
    vstd::arithmetic::div_mod::lemma_fundamental_div_mod(n as int, d as int);
    assert(d * q == q * d) by (nonlinear_arith);
    assert((q + 1) * d == q * d + d) by (nonlinear_arith);
}

proof fn lemma_spacing(n: nat)
    ensures
        spacing(n) >= 1,
        n < 0x20_0000_0000_0000 ==> spacing(n) == 1,
        n >= 0x20_0000_0000_0000 ==> spacing(n) * 0x10_0000_0000_0000 <= n,
    decreases n,
{
    if n >= 0x20_0000_0000_0000 {
        lemma_spacing(n / 2);
    }
}

/// A size is shown as it is up to the precision of a double: exactly below 2^53
/// bytes, and else off by a part in 2^53 at most.
pub proof fn double_precision_is_close(n: nat)
    ensures
        n < 9007199254740992 ==> at_double_precision(n) == n,
        9007199254740992 * (at_double_precision(n) - n) <= n,
        9007199254740992 * (n - at_double_precision(n)) <= n,
{
    let step = spacing(n);
    lemma_spacing(n);
    rounding_is_to_the_nearest(n, step);
    if n < 9007199254740992 {
        assert(rounded(n, 1) == n);
    }
}

/// How a size below a PiB is shown. Below 1 KiB it is a number of bytes. Above, it
/// is in the largest unit that it fills, with two decimals, and what is shown is
/// off by half of the last decimal at most.
pub proof fn sizes_are_shown_in_their_unit(bytes: u64) -> (hundredths: nat)
    requires
        bytes < 1125899906842624,
    ensures
        bytes < 1024 ==> size_text(bytes) == text::decimal(bytes as nat) + " B"@,
        bytes >= 1024 ==> {
            let shown = text::decimal(hundredths / 100) + "."@ + text::padded_decimal(
                hundredths % 100,
                2,
            );
            let unit: int = if bytes < 1048576 {
                1024
            } else if bytes < 1073741824 {
                1048576
            } else if bytes < 1099511627776 {
                1073741824
            } else {
                1099511627776
            };
            &&& bytes < 1048576 ==> size_text(bytes) == shown + " KiB"@
            &&& 1048576 <= bytes < 1073741824 ==> size_text(bytes) == shown + " MiB"@
            &&& 1073741824 <= bytes < 1099511627776 ==> size_text(bytes) == shown + " GiB"@
            &&& 1099511627776 <= bytes ==> size_text(bytes) == shown + " TiB"@
            &&& 2 * (hundredths * unit - 100 * bytes) <= unit
            &&& 2 * (100 * bytes - hundredths * unit) <= unit
            &&& unit <= bytes < 1024 * unit
        },
{
    double_precision_is_close(bytes as nat);
    let size = at_double_precision(bytes as nat);
    let unit = unit_size(unit_of(size));
    let hundredths = rounded(size * 100, unit);
    rounding_is_to_the_nearest(size * 100, unit);
    reveal_strlit(" ");
    reveal_strlit("B");
    reveal_strlit(" B");
    reveal_strlit("KiB");
    reveal_strlit(" KiB");
    reveal_strlit("MiB");
    reveal_strlit(" MiB");
    reveal_strlit("GiB");
    reveal_strlit(" GiB");
    reveal_strlit("TiB");
    reveal_strlit(" TiB");
    assert(" "@ + "B"@ =~= " B"@);
    assert(" "@ + "KiB"@ =~= " KiB"@);
    assert(" "@ + "MiB"@ =~= " MiB"@);
    assert(" "@ + "GiB"@ =~= " GiB"@);
    assert(" "@ + "TiB"@ =~= " TiB"@);
    let shown = text::decimal(hundredths / 100) + "."@ + text::padded_decimal(hundredths % 100, 2);
    assert(bytes < 1024 ==> size_text(bytes) =~= text::decimal(bytes as nat) + " B"@);
    assert(1024 <= bytes < 1048576 ==> size_text(bytes) =~= shown + " KiB"@);
    assert(1048576 <= bytes < 1073741824 ==> size_text(bytes) =~= shown + " MiB"@);
    assert(1073741824 <= bytes < 1099511627776 ==> size_text(bytes) =~= shown + " GiB"@);
    assert(1099511627776 <= bytes ==> size_text(bytes) =~= shown + " TiB"@);
    hundredths
}

/// A size of a PiB or more is shown in PiB with two decimals: what is shown is
/// off by half of the last decimal at most from the size at double precision.
pub proof fn largest_sizes_are_shown_in_pebibytes(bytes: u64) -> (hundredths: nat)
    requires
        bytes >= 1125899906842624,
    ensures
        size_text(bytes) == text::decimal(hundredths / 100) + "."@ + text::padded_decimal(
            hundredths % 100,
            2,
        ) + " PiB"@,
        2 * (hundredths * 1125899906842624 - 100 * at_double_precision(bytes as nat))
            <= 1125899906842624,
        2 * (100 * at_double_precision(bytes as nat) - hundredths * 1125899906842624)
            <= 1125899906842624,
{
    double_precision_is_close(bytes as nat);
    let size = at_double_precision(bytes as nat);
    let hundredths = rounded(size * 100, 0x4_0000_0000_0000);
    rounding_is_to_the_nearest(size * 100, 0x4_0000_0000_0000);
    reveal_strlit(" ");
    reveal_strlit("PiB");
    reveal_strlit(" PiB");
    assert(" "@ + "PiB"@ =~= " PiB"@);
    assert(size >= 0x4_0000_0000_0000);
    assert(size_text(bytes) =~= text::decimal(hundredths / 100) + "."@ + text::padded_decimal(
        hundredths % 100,
        2,
    ) + " PiB"@);
    hundredths
}

/// Colors are ANSI sequences in front of a message and behind it, and without
/// colors a message is shown as it is.
pub proof fn colors_are_ansi_sequences(message: Seq<char>)
    ensures
        painted(true, GREEN@, message) == "\x1b[32m"@ + message + "\x1b[0m"@,
        painted(true, RED@, message) == "\x1b[31m"@ + message + "\x1b[0m"@,
        painted(true, YELLOW@, message) == "\x1b[33m"@ + message + "\x1b[0m"@,
        painted(true, CYAN@, message) == "\x1b[36m"@ + message + "\x1b[0m"@,
        forall|code: Seq<char>| #[trigger] painted(false, code, message) == message,
{
}

/// The columns of the table: whatever fits its column stands at the same place in
/// every row, texts to the left and sizes to the right.
pub proof fn columns_are_aligned(
    number: Seq<char>,
    mount_point: Seq<char>,
    kind: Seq<char>,
    fs: Seq<char>,
    total: Seq<char>,
    free: Seq<char>,
)
    requires
        number.len() <= 4,
        mount_point.len() <= 28,
        kind.len() <= 12,
        fs.len() <= 10,
        total.len() <= 12,
        free.len() <= 12,
    ensures
        ({
            let line = row(number, mount_point, kind, fs, total, free);
            &&& line.len() == 83
            &&& line.subrange(0, number.len() as int) == number
            &&& line.subrange(5, 5 + mount_point.len() as int) == mount_point
            &&& line.subrange(34, 34 + kind.len() as int) == kind
            &&& line.subrange(47, 47 + fs.len() as int) == fs
            &&& line.subrange(70 - total.len(), 70) == total
            &&& line.subrange(83 - free.len(), 83) == free
        }),
{
    reveal_strlit(" ");
    let line = row(number, mount_point, kind, fs, total, free);
    assert(line.subrange(0, number.len() as int) =~= number);
    assert(line.subrange(5, 5 + mount_point.len() as int) =~= mount_point);
    assert(line.subrange(34, 34 + kind.len() as int) =~= kind);
    assert(line.subrange(47, 47 + fs.len() as int) =~= fs);
    assert(line.subrange(70 - total.len(), 70) =~= total);
    assert(line.subrange(83 - free.len(), 83) =~= free);
}

/// The table has a heading, a rule and a row for each volume: with its number,
/// counted from one, its mount point, kind and file system, and its sizes.
pub proof fn every_volume_has_a_row(volumes: Seq<VolumeInfo>, i: int)
    requires
        0 <= i < volumes.len(),
    ensures
        table(volumes).len() == volumes.len() + 2,
        table(volumes)[i + 2] == (
            Style::Plain,
            row(
                text::decimal((i + 1) as nat),
                volumes[i].mount_point@,
                volumes[i].kind.name(),
                volumes[i].fs@,
                size_text(volumes[i].total_bytes),
                size_text(volumes[i].free_bytes),
            ),
        ),
{
}

/// Messages are colored if that is asked for, or on a terminal if it is left open,
/// and else they are shown as they are. Plain lines and errors never have a color.
pub proof fn colors_are_as_asked(
    mode: ColorMode,
    terminal: bool,
    console: Console,
    message: Message,
    shown: String,
)
    requires
        call_ensures(Console::new, (mode, terminal), console),
        call_ensures(Console::render, (&console, &message), shown),
    ensures
        mode == ColorMode::Never || (mode == ColorMode::Auto && !terminal) ==> shown@
            == message.text@,
        message.style == Style::Plain || message.style == Style::Error ==> shown@ == message.text@,
        mode == ColorMode::Always || (mode == ColorMode::Auto && terminal) ==> {
            &&& message.style == Style::Good ==> shown@ == "\x1b[32m"@ + message.text@
                + "\x1b[0m"@
            &&& message.style == Style::Fail ==> shown@ == "\x1b[31m"@ + message.text@
                + "\x1b[0m"@
            &&& message.style == Style::Warn ==> shown@ == "\x1b[33m"@ + message.text@
                + "\x1b[0m"@
            &&& message.style == Style::Info ==> shown@ == "\x1b[36m"@ + message.text@
                + "\x1b[0m"@
        },
{
}

/// Live progress can be shown exactly on a terminal, whatever the colors are.
pub proof fn progress_is_for_terminals(
    mode: ColorMode,
    terminal: bool,
    console: Console,
    enabled: bool,
)
    requires
        call_ensures(Console::new, (mode, terminal), console),
        call_ensures(Console::progress_enabled, (&console,), enabled),
    ensures
        enabled == terminal,
{
}

} // verus!
