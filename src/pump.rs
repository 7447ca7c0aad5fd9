//! What happens to each line a child process writes: it is kept in full, and
//! shown truncated to the terminal width on one redrawn line.
use vstd::prelude::*;
use crate::text::views;

verus! {

/// The stream a line came from.
#[derive(Clone, Copy, Debug, PartialEq, Eq, Structural)]
pub enum Stream {
    Stdout,
    Stderr,
}

/// The most characters shown of a line: `max(13, width) - 13`.
pub open spec fn shown_width(console_width: nat) -> nat {
    if console_width < 13 {
        0
    } else {
        (console_width - 13) as nat
    }
}

/// The part of `line` that is shown.
pub open spec fn shown(line: Seq<char>, console_width: nat) -> Seq<char> {
    if line.len() <= shown_width(console_width) {
        line
    } else {
        line.take(shown_width(console_width) as int)
    }
}

/// The terminal width assumed when it cannot be read.
pub fn default_width() -> (r: usize)
    ensures
        r == 80,
{
    80
}

/// How many characters of a line are shown on a terminal `console_width` wide.
pub fn display_width(console_width: usize) -> (r: usize)
    ensures
        r == shown_width(console_width as nat),
{
    if console_width < 13 {
        0
    } else {
        console_width - 13
    }
}

/// The part of `line` shown on a terminal `console_width` wide.
pub fn truncate_line(line: &String, console_width: usize) -> (r: String)
    ensures
        r@ == shown(line@, console_width as nat),
        r@.len() <= shown_width(console_width as nat),
        line@.len() >= r@.len() && r@ == line@.take(r@.len() as int),
{
    let w = display_width(console_width);
    let n = line.as_str().unicode_len();
    if n <= w {
        proof {
            assert(line@.take(n as int) =~= line@);
        }
        line.clone()
    } else {
        String::from_str(line.as_str().substring_char(0, w))
    }
}

/// The lines captured from a child's stdout and stderr.
#[derive(Debug)]
pub struct Capture {
    pub stdout: Vec<String>,
    pub stderr: Vec<String>,
}

impl Capture {
    /// Nothing captured yet.
    pub fn new() -> (r: Capture)
        ensures
            r.stdout@.len() == 0,
            r.stderr@.len() == 0,
    {
        Capture { stdout: Vec::new(), stderr: Vec::new() }
    }

    /// Keeps `line` in full at the end of its stream's lines and returns what
    /// is shown of it on a terminal `console_width` wide.
    pub fn take_line(&mut self, stream: Stream, line: String, console_width: usize) -> (r: String)
        ensures
            stream == Stream::Stdout ==> views(final(self).stdout@) == views(old(self).stdout@).push(line@)
                && final(self).stderr@ == old(self).stderr@,
            stream == Stream::Stderr ==> views(final(self).stderr@) == views(old(self).stderr@).push(line@)
                && final(self).stdout@ == old(self).stdout@,
            r@ == shown(line@, console_width as nat),
            r@.len() <= shown_width(console_width as nat),
    {
        let r = truncate_line(&line, console_width);
        match stream {
            Stream::Stdout => {
                proof {
                    crate::text::lemma_views_push(self.stdout@, line);
                }
                self.stdout.push(line);
            },
            Stream::Stderr => {
                proof {
                    crate::text::lemma_views_push(self.stderr@, line);
                }
                self.stderr.push(line);
            },
        }
        r
    }
}

/// Pumps every line of one stream: the captured lines are the lines, in order,
/// and each shown line is at most `max(13, console_width) - 13` characters of
/// its line.
pub fn pump_lines(lines: &Vec<String>, stream: Stream, console_width: usize) -> (r: (Capture, Vec<String>))
    ensures
        stream == Stream::Stdout ==> views(r.0.stdout@) == views(lines@) && r.0.stderr@.len() == 0,
        stream == Stream::Stderr ==> views(r.0.stderr@) == views(lines@) && r.0.stdout@.len() == 0,
        r.1@.len() == lines@.len(),
        forall|i: int|
            0 <= i < lines@.len() ==> #[trigger] r.1@[i]@ == shown(lines@[i]@, console_width as nat)
                && r.1@[i]@.len() <= shown_width(console_width as nat),
{
    let mut cap = Capture::new();
    let mut shown_lines: Vec<String> = Vec::new();
    let mut i: usize = 0;
    while i < lines.len()
        invariant
            0 <= i <= lines@.len(),
            stream == Stream::Stdout ==> views(cap.stdout@) == views(lines@).take(i as int)
                && cap.stderr@.len() == 0,
            stream == Stream::Stderr ==> views(cap.stderr@) == views(lines@).take(i as int)
                && cap.stdout@.len() == 0,
            shown_lines@.len() == i,
            forall|x: int|
                0 <= x < i ==> #[trigger] shown_lines@[x]@ == shown(lines@[x]@, console_width as nat)
                    && shown_lines@[x]@.len() <= shown_width(console_width as nat),
        decreases lines@.len() - i,
    {
        let line = lines[i].clone();
        let s = cap.take_line(stream, line, console_width);
        shown_lines.push(s);
        proof {
            assert(views(lines@).take(i as int + 1) =~= views(lines@).take(i as int).push(lines@[i as int]@));
        }
        i = i + 1;
    }
    proof {
        assert(views(lines@).take(lines@.len() as int) =~= views(lines@));
    }
    (cap, shown_lines)
}

} // verus!
