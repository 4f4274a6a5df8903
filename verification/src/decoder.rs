use vstd::prelude::*;

use crate::model::{AudioEncoderStatus, CoreConfig, PodcastError, Result};
use crate::text::{
    ascii_lower, chars_of, concat, owned, same_text, string_of_range, to_ascii_lower, trim,
    trim_whitespace,
};

verus! {

/// Whether a media file already is MP3, or what else it is (by its extension).
#[derive(Debug, Clone, PartialEq, Eq)]
pub enum AudioFormat {
    Mp3,
    Other(String),
}

/// `AudioFormat` as a mathematical value.
pub enum AudioFormatView {
    Mp3,
    Other(Seq<char>),
}

impl AudioFormat {
    pub open spec fn view(&self) -> AudioFormatView {
        match self {
            AudioFormat::Mp3 => AudioFormatView::Mp3,
            AudioFormat::Other(s) => AudioFormatView::Other(s@),
        }
    }

    pub fn is_mp3(&self) -> (r: bool)
        ensures
            r == (self.view() is Mp3),
    {
        match self {
            AudioFormat::Mp3 => true,
            AudioFormat::Other(_) => false,
        }
    }
}

/// Drops leading dots.
pub open spec fn drop_leading_dots(s: Seq<char>) -> Seq<char>
    decreases s.len(),
{
    if s.len() > 0 && s[0] == '.' {
        drop_leading_dots(s.drop_first())
    } else {
        s
    }
}

proof fn lemma_drop_leading_dots(s: Seq<char>, i: int)
    requires
        0 <= i <= s.len(),
        forall|k: int| 0 <= k < i ==> #[trigger] s[k] == '.',
        i == s.len() || s[i] != '.',
    ensures
        drop_leading_dots(s) == s.subrange(i, s.len() as int),
    decreases i,
{
    if i > 0 {
        let t = s.drop_first();
        assert forall|k: int| 0 <= k < i - 1 implies #[trigger] t[k] == '.' by {
            assert(t[k] == s[k + 1]);
        }
        lemma_drop_leading_dots(t, i - 1);
        assert(t.subrange(i - 1, t.len() as int) == s.subrange(i, s.len() as int));
    } else {
        assert(s.subrange(0, s.len() as int) == s);
    }
}

fn strip_leading_dots(s: &str) -> (r: String)
    ensures
        r@ == drop_leading_dots(s@),
{
    let cs = chars_of(s);
    let mut i: usize = 0;
    while i < cs.len() && cs[i] == '.'
        invariant
            i <= cs@.len(),
            cs@ == s@,
            forall|k: int| 0 <= k < i ==> #[trigger] cs@[k] == '.',
        decreases cs@.len() - i,
    {
        i = i + 1;
    }
    proof {
        lemma_drop_leading_dots(s@, i as int);
    }
    string_of_range(&cs, i, cs.len())
}

/// How a media file is classified: a non-empty content type decides (only `audio/mpeg`
/// and `audio/mp3` are MP3); without one, the extension decides. A non-MP3 file is named
/// by its extension (lower case, leading dots dropped), or "unknown" without one.
pub open spec fn classify_spec(extension: Seq<char>, content_type: Option<Seq<char>>) -> AudioFormatView {
    let ext = ascii_lower(drop_leading_dots(extension));
    let ct = ascii_lower(
        match content_type {
            Some(c) => c,
            None => Seq::empty(),
        },
    );
    let other = if ext.len() == 0 {
        "unknown"@
    } else {
        ext
    };
    if ct.len() > 0 {
        if ct == "audio/mpeg"@ || ct == "audio/mp3"@ {
            AudioFormatView::Mp3
        } else {
            AudioFormatView::Other(other)
        }
    } else if ext == "mp3"@ {
        AudioFormatView::Mp3
    } else {
        AudioFormatView::Other(other)
    }
}

pub open spec fn opt_text(o: Option<&str>) -> Option<Seq<char>> {
    match o {
        Some(s) => Some(s@),
        None => None,
    }
}

/// A file whose content type is `audio/mpeg` or `audio/mp3`, in any case, is an MP3
/// whatever its extension.
pub proof fn lemma_mp3_content_type_is_mp3(extension: Seq<char>, content_type: Seq<char>)
    requires
        ascii_lower(content_type) == "audio/mpeg"@ || ascii_lower(content_type) == "audio/mp3"@,
    ensures
        classify_spec(extension, Some(content_type)) == AudioFormatView::Mp3,
{
    reveal_strlit("audio/mpeg");
    reveal_strlit("audio/mp3");
}

/// A non-empty content type decides: any other than `audio/mpeg` and `audio/mp3` (in any
/// case) is not an MP3, whatever the extension. Without a content type, an `mp3`
/// extension (any case, leading dots aside) is an MP3.
pub proof fn lemma_content_type_decides(extension: Seq<char>, content_type: Option<Seq<char>>)
    ensures
        content_type matches Some(c) && ascii_lower(c).len() > 0 && ascii_lower(c) != "audio/mpeg"@
            && ascii_lower(c) != "audio/mp3"@ ==> classify_spec(extension, content_type) is Other,
        (content_type is None && ascii_lower(drop_leading_dots(extension)) == "mp3"@)
            ==> classify_spec(extension, content_type) == AudioFormatView::Mp3,
{
    reveal_strlit("");
}

pub fn classify_audio_format(extension: &str, content_type: Option<&str>) -> (r: AudioFormat)
    ensures
        r.view() == classify_spec(extension@, opt_text(content_type)),
{
    let stripped = strip_leading_dots(extension);
    let ext = to_ascii_lower(stripped.as_str());
    let ct = match content_type {
        Some(c) => to_ascii_lower(c),
        None => {
            proof {
                reveal_strlit("");
                assert(""@ =~= Seq::<char>::empty());
            }
            to_ascii_lower("")
        },
    };
    let other = if ext.as_str().is_empty() {
        owned("unknown")
    } else {
        ext.clone()
    };
    if !ct.as_str().is_empty() {
        if same_text(ct.as_str(), "audio/mpeg") || same_text(ct.as_str(), "audio/mp3") {
            AudioFormat::Mp3
        } else {
            AudioFormat::Other(other)
        }
    } else if same_text(ext.as_str(), "mp3") {
        AudioFormat::Mp3
    } else {
        AudioFormat::Other(other)
    }
}

/// The encoder that is run: the configured one, or `ffmpeg` from the search path.
pub fn configured_encoder_path(config: &CoreConfig) -> (r: String)
    ensures
        match config.mp3_encoder_path {
            Some(p) => r@ == p@,
            None => r@ == "ffmpeg"@,
        },
{
    match &config.mp3_encoder_path {
        Some(p) => p.clone(),
        None => owned("ffmpeg"),
    }
}

/// How running the encoder went: it ran and exited (with its output and the text of its
/// exit status), it was not found, or it could not be started for another reason.
#[derive(Debug, Clone)]
pub enum ProcessOutcome {
    Exited { success: bool, stdout: String, stderr: String, status_text: String },
    NotFound,
    SpawnFailed(String),
}

/// The first line of a text (`str::lines().next()`): up to the first line feed, a
/// trailing carriage return dropped; `None` for an empty text.
pub open spec fn first_line(s: Seq<char>) -> Option<Seq<char>> {
    if s.len() == 0 {
        None
    } else {
        let line = if exists|k: int| 0 <= k < s.len() && s[k] == '\n' {
            s.take(choose|k: int| 0 <= k < s.len() && s[k] == '\n' && forall|j: int| 0 <= j < k ==> s[j] != '\n')
        } else {
            s
        };
        Some(
            if line.len() > 0 && line.last() == '\r' {
                line.drop_last()
            } else {
                line
            },
        )
    }
}

fn first_line_of(s: &str) -> (r: Option<String>)
    ensures
        r.deep_view() == first_line(s@),
{
    let cs = chars_of(s);
    if cs.len() == 0 {
        return None;
    }
    let mut i: usize = 0;
    while i < cs.len() && cs[i] != '\n'
        invariant
            i <= cs@.len(),
            cs@ == s@,
            forall|j: int| 0 <= j < i ==> cs@[j] != '\n',
        decreases cs@.len() - i,
    {
        i = i + 1;
    }
    let ghost line = s@.take(i as int);
    proof {
        if i < cs.len() {
            let k = choose|k: int| 0 <= k < s@.len() && s@[k] == '\n' && forall|j: int| 0 <= j < k ==> s@[j] != '\n';
            assert(k == i) by {
                if k < i {
                    assert(s@[k] != '\n');
                }
                if k > i {
                    assert(s@[i as int] == '\n');
                }
            }
        } else {
            assert(s@.take(i as int) == s@);
        }
    }
    if i > 0 && cs[i - 1] == '\r' {
        assert(line.drop_last() == s@.subrange(0, i - 1));
        Some(string_of_range(&cs, 0, i - 1))
    } else {
        Some(string_of_range(&cs, 0, i))
    }
}

/// The text reported when the encoder fails: its trimmed error output, or the exit status
/// when that is empty.
pub open spec fn failure_text(stderr: Seq<char>, status_text: Seq<char>) -> Seq<char> {
    if trim(stderr).len() == 0 {
        "encoder exited with "@ + status_text
    } else {
        trim(stderr)
    }
}

fn failure_text_of(stderr: &str, status_text: &str) -> (r: String)
    ensures
        r@ == failure_text(stderr@, status_text@),
{
    let t = trim_whitespace(stderr);
    if t.as_str().is_empty() {
        concat("encoder exited with ", status_text)
    } else {
        t
    }
}

/// The encoder status for a version query that ended as `outcome`.
pub open spec fn encoder_status_spec(path: Seq<char>, outcome: ProcessOutcome, r: AudioEncoderStatus) -> bool {
    match outcome {
        ProcessOutcome::Exited { success, stdout, stderr, status_text } => if success {
            r matches AudioEncoderStatus::Available { path: p, version } && p@ == path
                && version@ == (match first_line(stdout@) {
                Some(l) => l,
                None => "ffmpeg"@,
            })
        } else {
            r matches AudioEncoderStatus::Error { path: p, error } && p@ == path && error@
                == failure_text(stderr@, status_text@)
        },
        ProcessOutcome::NotFound => r matches AudioEncoderStatus::Missing { path: p } && p@ == path,
        ProcessOutcome::SpawnFailed(msg) => r matches AudioEncoderStatus::Error { path: p, error }
            && p@ == path && error@ == msg@,
    }
}

/// What the encoder's version query tells: available with the first line of its output as
/// version, missing when it was not found, an error otherwise.
pub fn encoder_status_from_outcome(path: String, outcome: ProcessOutcome) -> (r: AudioEncoderStatus)
    ensures
        encoder_status_spec(path@, outcome, r),
{
    match outcome {
        ProcessOutcome::Exited { success, stdout, stderr, status_text } => {
            if success {
                let version = match first_line_of(stdout.as_str()) {
                    Some(l) => l,
                    None => owned("ffmpeg"),
                };
                AudioEncoderStatus::Available { path, version }
            } else {
                let error = failure_text_of(stderr.as_str(), status_text.as_str());
                AudioEncoderStatus::Error { path, error }
            }
        },
        ProcessOutcome::NotFound => AudioEncoderStatus::Missing { path },
        ProcessOutcome::SpawnFailed(msg) => AudioEncoderStatus::Error { path, error: msg },
    }
}

/// What a conversion run that ended as `outcome` means.
pub open spec fn conversion_spec(outcome: ProcessOutcome, r: Result<()>) -> bool {
    match outcome {
        ProcessOutcome::Exited { success, stdout, stderr, status_text } => if success {
            r is Ok
        } else {
            r matches Err(PodcastError::Mp3ConversionFailed(m)) && m@ == failure_text(
                stderr@,
                status_text@,
            )
        },
        ProcessOutcome::NotFound => r matches Err(PodcastError::Mp3EncoderUnavailable),
        ProcessOutcome::SpawnFailed(msg) => r matches Err(PodcastError::Io(m)) && m@ == msg@,
    }
}

/// The result of converting a file to MP3 with the encoder, once the run has ended.
pub fn conversion_result(outcome: ProcessOutcome) -> (r: Result<()>)
    ensures
        conversion_spec(outcome, r),
{
    match outcome {
        ProcessOutcome::Exited { success, stdout, stderr, status_text } => {
            if success {
                Ok(())
            } else {
                Err(
                    PodcastError::Mp3ConversionFailed(
                        failure_text_of(stderr.as_str(), status_text.as_str()),
                    ),
                )
            }
        },
        ProcessOutcome::NotFound => Err(PodcastError::Mp3EncoderUnavailable),
        ProcessOutcome::SpawnFailed(msg) => Err(PodcastError::Io(msg)),
    }
}

/// The arguments the encoder gets to turn `input` into an MP3 file at `output`.
pub fn conversion_arguments(input: &str, output: &str) -> (r: Vec<String>)
    ensures
        r@.len() == 9,
        r@[0]@ == "-y"@,
        r@[1]@ == "-i"@,
        r@[2]@ == input@,
        r@[3]@ == "-vn"@,
        r@[4]@ == "-codec:a"@,
        r@[5]@ == "libmp3lame"@,
        r@[6]@ == "-q:a"@,
        r@[7]@ == "2"@,
        r@[8]@ == output@,
{
    let mut r: Vec<String> = Vec::new();
    r.push(owned("-y"));
    r.push(owned("-i"));
    r.push(owned(input));
    r.push(owned("-vn"));
    r.push(owned("-codec:a"));
    r.push(owned("libmp3lame"));
    r.push(owned("-q:a"));
    r.push(owned("2"));
    r.push(owned(output));
    r
}

} // verus!
