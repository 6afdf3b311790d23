use crate::graphics2d::canvas::Canvas;
use vstd::prelude::*;
use vstd::string::StringExecFns;
use vstd::utf8::encode_utf8;

verus! {

/// A picture in the plain PPM format: `width` by `height` pixels of three
/// components each, every component a number up to `max_color`.
#[derive(Default, Debug)]
pub struct PPM {
    pub version: &'static str,
    pub width: u32,
    pub height: u32,
    pub max_color: u32,
    pub colors: Vec<u32>,
}

/// How many numbers make one pixel.
pub const COMPONENTS_PER_COLOR: u32 = 3;

/// No line of the text may reach this many bytes.
pub const PPM_MAX_LINE_LENGTH: usize = 70;

/// The byte that ends a line.
pub const LINE_FEED: u8 = 10;

/// The three components of pixel `i` in `colors` are what `components` made
/// of `pixel`.
pub open spec fn holds_pixel<P, F: Fn(P) -> [u32; 3]>(
    colors: Seq<u32>,
    i: int,
    components: F,
    pixel: P,
) -> bool {
    exists|made: [u32; 3]|
        call_ensures(components, (pixel,), made) && #[trigger] made@ == colors.subrange(
            3 * i,
            3 * i + 3,
        )
}

impl PPM {
    /// A `P3` picture with the given size, limit and components.
    #[must_use]
    pub fn new(width: u32, height: u32, max_color: u32, colors: Vec<u32>) -> (ppm: Self)
        ensures
            ppm.version@ == "P3"@,
            ppm.width == width,
            ppm.height == height,
            ppm.max_color == max_color,
            ppm.colors == colors,
    {
        Self { version: "P3", width, height, max_color, colors }
    }

    /// The picture of `canvas` with components up to 255: pixel after pixel,
    /// the three components that `components` makes of it.
    pub fn from_canvas<P: Copy + Default, F: Fn(P) -> [u32; 3]>(
        canvas: &Canvas<P>,
        components: F,
    ) -> (ppm: Self)
        requires
            forall|i: int|
                0 <= i < canvas.raw_buffer@.len() ==> call_requires(
                    components,
                    (#[trigger] canvas.raw_buffer@[i],),
                ),
        ensures
            ppm.version@ == "P3"@,
            ppm.width == canvas.width,
            ppm.height == canvas.height,
            ppm.max_color == 255,
            ppm.colors@.len() == COMPONENTS_PER_COLOR * canvas.raw_buffer@.len(),
            forall|i: int|
                0 <= i < canvas.raw_buffer@.len() ==> holds_pixel(
                    ppm.colors@,
                    i,
                    components,
                    #[trigger] canvas.raw_buffer@[i],
                ),
    {
        let mut colors: Vec<u32> = Vec::new();
        let mut i: usize = 0;
        while i < canvas.raw_buffer.len()
            invariant
                i <= canvas.raw_buffer@.len(),
                colors@.len() == COMPONENTS_PER_COLOR * i,
                forall|j: int|
                    0 <= j < canvas.raw_buffer@.len() ==> call_requires(
                        components,
                        (#[trigger] canvas.raw_buffer@[j],),
                    ),
                forall|j: int|
                    0 <= j < i ==> holds_pixel(
                        colors@,
                        j,
                        components,
                        #[trigger] canvas.raw_buffer@[j],
                    ),
            decreases canvas.raw_buffer@.len() - i,
        {
            let ghost before = colors@;
            let pixel = components(canvas.raw_buffer[i]);
            colors.push(pixel[0]);
            colors.push(pixel[1]);
            colors.push(pixel[2]);
            proof {
                assert(colors@.subrange(3 * i, 3 * i + 3) =~= pixel@);
                assert forall|j: int| 0 <= j < i implies holds_pixel(
                    colors@,
                    j,
                    components,
                    #[trigger] canvas.raw_buffer@[j],
                ) by {
                    assert(holds_pixel(before, j, components, canvas.raw_buffer@[j]));
                    assert(colors@.subrange(3 * j, 3 * j + 3) =~= before.subrange(
                        3 * j,
                        3 * j + 3,
                    ));
                }
            }
            i += 1;
        }
        Self::new(canvas.width as u32, canvas.height as u32, 255, colors)
    }

    /// How many components one row of pixels has.
    pub open spec fn stride(&self) -> int {
        self.width * COMPONENTS_PER_COLOR
    }

    /// How many components one row of pixels has.
    #[must_use]
    pub fn get_stride(&self) -> (stride: usize)
        requires
            self.stride() <= u32::MAX,
        ensures
            stride == self.stride(),
    {
        (self.width * COMPONENTS_PER_COLOR) as usize
    }

    /// Whether component `i` is the first of a row of pixels.
    #[must_use]
    pub fn is_color_index_new_line(&self, i: usize) -> (first: bool)
        requires
            0 < self.stride() <= u32::MAX,
        ensures
            first == (i as int % self.stride() == 0),
    {
        let stride = self.get_stride();
        i % stride == 0
    }
}

/// How many bytes follow the last line feed of `bytes`, or how many bytes
/// there are where none is a line feed.
pub open spec fn last_line_length(bytes: Seq<u8>) -> nat
    decreases bytes.len(),
{
    if bytes.len() == 0 || bytes.last() == LINE_FEED {
        0
    } else {
        1 + last_line_length(bytes.drop_last())
    }
}

/// A line is as long as its last `n` bytes and what comes before them, where
/// none of these `n` bytes is a line feed.
proof fn lemma_last_line_tail(bytes: Seq<u8>, n: nat)
    requires
        n <= bytes.len(),
        forall|k: int| bytes.len() - n <= k < bytes.len() ==> bytes[k] != LINE_FEED,
    ensures
        last_line_length(bytes) == last_line_length(bytes.take(bytes.len() - n)) + n,
    decreases n,
{
    if n == 0 {
        assert(bytes.take(bytes.len() as int) =~= bytes);
    } else {
        let shorter = bytes.drop_last();
        lemma_last_line_tail(shorter, (n - 1) as nat);
        assert(shorter.take(shorter.len() - (n - 1)) =~= bytes.take(bytes.len() - n));
    }
}

/// The length in bytes of the last line of `lines`: of what follows its last
/// line feed.
pub fn get_last_line_length(lines: &String) -> (length: usize)
    ensures
        length == last_line_length(encode_utf8(lines@)),
{
    let bytes = lines.as_str().as_bytes();
    let len = bytes.len();
    let mut n: usize = 0;
    while n < len && bytes[len - 1 - n] != LINE_FEED
        invariant
            len == bytes@.len(),
            n <= len,
            forall|k: int| len - n <= k < len ==> bytes@[k] != LINE_FEED,
        decreases len - n,
    {
        n += 1;
    }
    proof {
        lemma_last_line_tail(bytes@, n as nat);
        if n < len {
            assert(bytes@.take(len - n).last() == bytes@[len - 1 - n]);
        }
    }
    n
}

/// Whether the last line of `lines`, with `append_size` more bytes, reaches
/// the length that no line may have.
pub fn is_join_forming_long_line(lines: &String, append_size: usize) -> (long: bool)
    ensures
        long == (last_line_length(encode_utf8(lines@)) + append_size >= PPM_MAX_LINE_LENGTH),
{
    match get_last_line_length(lines).checked_add(append_size) {
        Some(line_len) => line_len >= PPM_MAX_LINE_LENGTH,
        None => true,
    }
}

/// Whether component `i` of `ppm` starts a line of its own after `lines`:
/// it does as the first of a row of pixels, and where `append_size` more
/// bytes would make the last line too long.
#[must_use]
pub fn should_start_new_line(
    ppm: &PPM,
    i: usize,
    lines: &String,
    append_size: usize,
) -> (start: bool)
    requires
        0 < ppm.stride() <= u32::MAX,
    ensures
        start == (i as int % ppm.stride() == 0 || last_line_length(encode_utf8(lines@))
            + append_size >= PPM_MAX_LINE_LENGTH),
{
    ppm.is_color_index_new_line(i) || is_join_forming_long_line(lines, append_size)
}

/// What stands between the text `acc` and the component `append` that comes
/// next: a line feed where component `i` starts a line, a blank elsewhere.
#[must_use]
pub fn get_colors_string_prefix(
    ppm: &PPM,
    i: usize,
    acc: &String,
    append: &String,
) -> (prefix: &'static str)
    requires
        0 < ppm.stride() <= u32::MAX,
    ensures
        prefix@ == if i as int % ppm.stride() == 0 || last_line_length(encode_utf8(acc@))
            + encode_utf8(append@).len() + 1 >= PPM_MAX_LINE_LENGTH {
            "\n"@
        } else {
            " "@
        },
{
    let append_size = match append.as_str().as_bytes().len().checked_add(1) {
        Some(size) => size,
        None => usize::MAX,
    };
    if should_start_new_line(ppm, i, acc, append_size) {
        "\n"
    } else {
        " "
    }
}

/// The character of the decimal digit `d`.
pub open spec fn digit_char(d: nat) -> char {
    if d == 0 {
        '0'
    } else if d == 1 {
        '1'
    } else if d == 2 {
        '2'
    } else if d == 3 {
        '3'
    } else if d == 4 {
        '4'
    } else if d == 5 {
        '5'
    } else if d == 6 {
        '6'
    } else if d == 7 {
        '7'
    } else if d == 8 {
        '8'
    } else {
        '9'
    }
}

/// The decimal digits of `n`, the highest first, with no leading zero.
pub open spec fn decimal_of(n: nat) -> Seq<char>
    decreases n,
{
    if n < 10 {
        seq![digit_char(n)]
    } else {
        decimal_of(n / 10).push(digit_char(n % 10))
    }
}

/// The text of the decimal digit `d`.
fn digit_text(d: u32) -> (text: &'static str)
    requires
        d < 10,
    ensures
        text@ == seq![digit_char(d as nat)],
{
    proof {
        reveal_strlit("0");
        reveal_strlit("1");
        reveal_strlit("2");
        reveal_strlit("3");
        reveal_strlit("4");
        reveal_strlit("5");
        reveal_strlit("6");
        reveal_strlit("7");
        reveal_strlit("8");
        reveal_strlit("9");
    }
    let text = if d == 0 {
        "0"
    } else if d == 1 {
        "1"
    } else if d == 2 {
        "2"
    } else if d == 3 {
        "3"
    } else if d == 4 {
        "4"
    } else if d == 5 {
        "5"
    } else if d == 6 {
        "6"
    } else if d == 7 {
        "7"
    } else if d == 8 {
        "8"
    } else {
        "9"
    };
    assert(text@ =~= seq![digit_char(d as nat)]);
    text
}

/// The number `n` written in decimal digits.
pub fn decimal_text(n: u32) -> (text: String)
    ensures
        text@ == decimal_of(n as nat),
    decreases n,
{
    if n < 10 {
        String::from_str(digit_text(n))
    } else {
        let mut text = decimal_text(n / 10);
        text.append(digit_text(n % 10));
        assert(text@ =~= decimal_of(n as nat));
        text
    }
}

/// What stands before component `i` when it follows the text `acc` and is
/// itself written as `component`.
pub open spec fn prefix_of(stride: int, i: int, acc: Seq<char>, component: Seq<char>) -> Seq<
    char,
> {
    if i % stride == 0 || last_line_length(encode_utf8(acc)) + encode_utf8(component).len() + 1
        >= PPM_MAX_LINE_LENGTH {
        "\n"@
    } else {
        " "@
    }
}

/// The text of the first `k` components of `colors`: each in decimal digits
/// behind its prefix.
pub open spec fn colors_text(stride: int, colors: Seq<u32>, k: nat) -> Seq<char>
    decreases k,
{
    if k == 0 {
        Seq::empty()
    } else {
        let acc = colors_text(stride, colors, (k - 1) as nat);
        let component = decimal_of(colors[k - 1] as nat);
        acc + prefix_of(stride, k - 1, acc, component) + component
    }
}

impl PPM {
    /// The whole text of the picture: the version, the width and the height,
    /// the limit, and then every component.
    pub open spec fn text(&self) -> Seq<char> {
        self.version@ + "\n"@ + decimal_of(self.width as nat) + " "@ + decimal_of(
            self.height as nat,
        ) + "\n"@ + decimal_of(self.max_color as nat) + colors_text(
            self.stride(),
            self.colors@,
            self.colors@.len(),
        )
    }

    /// The picture as the text of a plain PPM file. A row of pixels starts a
    /// line, and so does a component that would make its line too long.
    pub fn to_string(&self) -> (text: String)
        requires
            0 < self.stride() <= u32::MAX || self.colors@.len() == 0,
        ensures
            text@ == self.text(),
    {
        let mut colors = String::new();
        let mut i: usize = 0;
        while i < self.colors.len()
            invariant
                0 < self.stride() <= u32::MAX || self.colors@.len() == 0,
                i <= self.colors@.len(),
                colors@ == colors_text(self.stride(), self.colors@, i as nat),
            decreases self.colors@.len() - i,
        {
            let component = decimal_text(self.colors[i]);
            let prefix = get_colors_string_prefix(self, i, &colors, &component);
            colors.append(prefix);
            colors.append(component.as_str());
            i += 1;
        }
        let mut text = String::from_str(self.version);
        text.append("\n");
        text.append(decimal_text(self.width).as_str());
        text.append(" ");
        text.append(decimal_text(self.height).as_str());
        text.append("\n");
        text.append(decimal_text(self.max_color).as_str());
        text.append(colors.as_str());
        text
    }
}

} // verus!
