use vstd::prelude::*;
use vstd::utf8::encode_utf8;

verus! {

/// The search endpoint of the music service, up to the spot where the
/// form-urlencoded keyword goes (the service's template ends in
/// `keyword={keyword}`).
pub const MUSIC_SEARCH_PREFIX: &'static str = "https://api.bakaomg.cn/v1/music/netease/search?keyword=";

/// Bytes that the form-urlencoded serializer writes as they are.
pub open spec fn urlencode_keeps(b: u8) -> bool {
    b == 42 || b == 45 || b == 46 || (48 <= b <= 57) || (65 <= b <= 90) || b == 95 || (97 <= b <= 122)
}

/// The upper-case hexadecimal digit for `d` (below 16).
pub open spec fn hex_digit(d: u8) -> char {
    if d < 10 {
        (48 + d) as char
    } else {
        (55 + d) as char
    }
}

/// What the form-urlencoded serializer writes for one byte: `*`, `-`, `.`,
/// `_` and ASCII letters and digits stay, a space becomes `+`, and every
/// other byte becomes `%` and two upper-case hexadecimal digits.
pub open spec fn urlencode_byte(b: u8) -> Seq<char> {
    if urlencode_keeps(b) {
        seq![b as char]
    } else if b == 32 {
        seq!['+']
    } else {
        seq!['%', hex_digit(b / 16), hex_digit(b % 16)]
    }
}

/// The `application/x-www-form-urlencoded` byte serialization of `bytes`.
pub open spec fn form_urlencoded(bytes: Seq<u8>) -> Seq<char>
    decreases bytes.len(),
{
    if bytes.len() == 0 {
        Seq::empty()
    } else {
        form_urlencoded(bytes.drop_last()) + urlencode_byte(bytes.last())
    }
}

/// Calls `url::form_urlencoded::byte_serialize` and joins the pieces it
/// yields. Trusted: the text is the byte serialization of the WHATWG URL
/// standard that the crate implements, byte by byte as
/// [`urlencode_byte`] states.
#[verifier::external_body]
fn form_urlencode(input: &[u8]) -> (s: String)
    ensures
        s@ == form_urlencoded(input@),
{
    url::form_urlencoded::byte_serialize(input).collect::<String>()
}

/// A request to find, and maybe play, a song.
pub struct MusicHandler {
    /// The song to look for.
    pub name: String,
    /// Whether to play the song, or only to show its spectrum.
    pub play: bool,
    /// Whether to start over when the song ends.
    pub loop_play: bool,
}

/// What the player loop does when one of its frames ends.
#[derive(Debug, Clone, Copy, PartialEq, Eq, Structural)]
pub enum PlaybackStep {
    /// The song goes on.
    Continue,
    /// The song ended and plays again from the start.
    Restart,
    /// The song ended; playing is over.
    Finish,
}

impl MusicHandler {
    pub fn new(name: String, play: bool, loop_play: bool) -> (h: Self)
        ensures
            h.name@ == name@,
            h.play == play,
            h.loop_play == loop_play,
    {
        Self { name, play, loop_play }
    }

    /// The address that searches the music service for the song's name:
    /// [`MUSIC_SEARCH_PREFIX`] followed by the form-urlencoded UTF-8 bytes
    /// of the name.
    pub fn search_url(&self) -> (url: String)
        ensures
            url@ == MUSIC_SEARCH_PREFIX@ + form_urlencoded(encode_utf8(self.name@)),
    {
        let keyword = form_urlencode(self.name.as_str().as_bytes());
        let mut url = String::from_str(MUSIC_SEARCH_PREFIX);
        url.append(keyword.as_str());
        url
    }

    /// What to do when a frame of the player loop ends: once the song is
    /// over (`ended`), it starts again when looping is on and playing stops
    /// otherwise; before that it goes on.
    pub fn next_playback_step(&self, ended: bool) -> (step: PlaybackStep)
        ensures
            step == (if !ended {
                PlaybackStep::Continue
            } else if self.loop_play {
                PlaybackStep::Restart
            } else {
                PlaybackStep::Finish
            }),
    {
        if ended {
            if self.loop_play {
                PlaybackStep::Restart
            } else {
                PlaybackStep::Finish
            }
        } else {
            PlaybackStep::Continue
        }
    }

    /// The word shown when the handler is done: the analysis is finished
    /// when nothing was played, the playing otherwise.
    pub fn finish_word(&self) -> (s: &'static str)
        ensures
            s@ == (if !self.play {
                "分析完成"@
            } else {
                "播放完成"@
            }),
    {
        if !self.play {
            "分析完成"
        } else {
            "播放完成"
        }
    }
}

/// The number of cells of the progress bar.
pub const PROGRESS_CELLS: usize = 50;

/// The progress bar with `filled` of its cells done: `filled` times `=`,
/// then blanks up to [`PROGRESS_CELLS`] cells.
pub open spec fn bar_cells(filled: nat) -> Seq<char> {
    Seq::new(PROGRESS_CELLS as nat, |i: int| if i < filled { '=' } else { ' ' })
}

/// The progress bar with `filled` of its cells done, as [`bar_cells`] says.
pub fn progress_bar(filled: usize) -> (bar: String)
    requires
        filled <= PROGRESS_CELLS,
    ensures
        bar@ == bar_cells(filled as nat),
{
    let mut bar = String::new();
    let mut i: usize = 0;
    proof {
        reveal_strlit("=");
        reveal_strlit(" ");
    }
    while i < PROGRESS_CELLS
        invariant
            i <= PROGRESS_CELLS,
            filled <= PROGRESS_CELLS,
            bar@ == bar_cells(filled as nat).take(i as int),
            "="@ == seq!['='],
            " "@ == seq![' '],
        decreases PROGRESS_CELLS - i,
    {
        let ghost before = bar@;
        if i < filled {
            bar.append("=");
        } else {
            bar.append(" ");
        }
        assert(bar@ =~= bar_cells(filled as nat).take(i + 1));
        i = i + 1;
    }
    assert(bar@ =~= bar_cells(filled as nat));
    bar
}

/// A length in seconds as whole minutes and the seconds left over.
pub fn minutes_and_seconds(total_seconds: u64) -> (ms: (u64, u64))
    ensures
        ms.0 == total_seconds / 60,
        ms.1 == total_seconds % 60,
{
    (total_seconds / 60, total_seconds % 60)
}

/// A length splits into whole minutes and fewer than sixty seconds that
/// add back up to it.
pub proof fn lemma_minutes_and_seconds(total_seconds: u64)
    ensures
        (total_seconds / 60) * 60 + total_seconds % 60 == total_seconds,
        total_seconds % 60 < 60,
{
}

/// The progress bar always has [`PROGRESS_CELLS`] cells, of which exactly
/// the first `filled` are done.
pub proof fn lemma_bar_shape(filled: nat)
    requires
        filled <= PROGRESS_CELLS,
    ensures
        bar_cells(filled).len() == PROGRESS_CELLS,
        forall|i: int| 0 <= i < PROGRESS_CELLS ==> (#[trigger] bar_cells(filled)[i] == '=') == (i < filled),
{
}

} // verus!
