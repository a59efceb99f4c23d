//! The question-and-answer protocol of the game: a question is put, up to
//! three answers are read, and where none of them is understood the prompt
//! settles on the cautious answer by itself.
//!
//! Nothing here reads or writes: a [`Prompt`] is told each line that was read
//! and says what is to be written back.
use vstd::prelude::*;

verus! {

/// The number of answers a prompt reads before it gives up.
pub const MAX_TRIES: u8 = 3;

/// The text of `text` in lower case, as `str::to_lowercase` gives it.
pub uninterp spec fn lowercase_of(text: Seq<char>) -> Seq<char>;

/// The text of `text` without the white space at its two ends, as `str::trim`
/// gives it.
pub uninterp spec fn trimmed(text: Seq<char>) -> Seq<char>;

/// `str::to_lowercase`: the lower-case form of a text by Unicode's rules,
/// which depends on the text alone. The contract names the result and says
/// nothing else of it.
pub assume_specification[ str::to_lowercase ](text: &str) -> (lower: String)
    ensures
        lower@ == lowercase_of(text@),
;

/// `str::trim`: the text between the leading and the trailing Unicode white
/// space, which depends on the text alone. The contract names the result and
/// says nothing else of it.
pub assume_specification[ str::trim ](text: &str) -> (inner: &str)
    ensures
        inner@ == trimmed(text@),
;

/// `==` on `str`: two texts are equal exactly when they hold the same
/// characters in the same order.
pub assume_specification[ <str as PartialEq>::eq ](left: &str, right: &str) -> (same: bool)
    ensures
        same == (left@ == right@),
;

/// The token that a line of input stands for: the line in lower case, without
/// the white space around it.
pub open spec fn token_of(line: Seq<char>) -> Seq<char> {
    trimmed(lowercase_of(line))
}

/// Brings a line of input to its token.
pub fn normalise(line: &str) -> (token: String)
    ensures
        token@ == token_of(line@),
{
    let lower = line.to_lowercase();
    let inner = lower.as_str().trim();
    String::from_str(inner)
}

/// The questions the game asks. Each has two answers: one to go on (`true`)
/// and one to stop (`false`), and stopping is what it falls back on.
#[derive(Debug, Clone, Copy, PartialEq, Eq, Structural)]
pub enum PromptKind {
    /// Whether to play at all: `yes` or `no`.
    FirstGame,
    /// Whether to play another round: `yes` or `no`.
    NextGame,
    /// Whether to take another card: `hit` or `stay`.
    HitOrStay,
}

impl PromptKind {
    /// The question, as first put.
    pub open spec fn question(self) -> Seq<char> {
        match self {
            PromptKind::FirstGame => "Do you want to play Blackjack? (yes/no) "@,
            PromptKind::NextGame => "Keep playing Blackjack? (yes/no) "@,
            PromptKind::HitOrStay => "Hit or Stay? "@,
        }
    }

    /// The token that means to go on.
    pub open spec fn go_token(self) -> Seq<char> {
        match self {
            PromptKind::HitOrStay => "hit"@,
            _ => "yes"@,
        }
    }

    /// The token that means to stop.
    pub open spec fn stop_token(self) -> Seq<char> {
        match self {
            PromptKind::HitOrStay => "stay"@,
            _ => "no"@,
        }
    }

    /// What a token answers: to go on, to stop, or nothing.
    pub open spec fn reading(self, token: Seq<char>) -> Option<bool> {
        if token == self.go_token() {
            Some(true)
        } else if token == self.stop_token() {
            Some(false)
        } else {
            None
        }
    }

    /// The line that acknowledges what was heard.
    pub open spec fn reply(self, heard: Option<bool>) -> Seq<char> {
        match self {
            PromptKind::HitOrStay => match heard {
                Some(true) => "Okay, you want to hit.\n"@,
                Some(false) => "Okay, you want to stay.\n"@,
                None => "That didn't make any sense...\n"@,
            },
            _ => match heard {
                Some(true) => "Alright! Let's play!\n"@,
                Some(false) => "Okay. Maybe another time.\n"@,
                None => "I didn't understand that.\n"@,
            },
        }
    }

    /// The question as put again after an answer that was not understood.
    /// Only the question for a card is put again.
    pub open spec fn repeat(self) -> Seq<char> {
        match self {
            PromptKind::HitOrStay => "Let's try again... Hit or Stay? "@,
            _ => Seq::empty(),
        }
    }

    /// The line that announces the fallback.
    pub open spec fn fallback(self) -> Seq<char> {
        match self {
            PromptKind::HitOrStay => "Let's just assume you want to stay.\n"@,
            _ =>
            "There seems to be a failure to communicate between us. Perhaps we'll play another time.\n"@,
        }
    }

    /// What is written after an answer: the acknowledgement and, where the
    /// answer was not understood and another will be read, the question again.
    pub open spec fn answer_text(self, heard: Option<bool>, tries_remaining: int) -> Seq<char> {
        if heard is None && tries_remaining > 0 {
            self.reply(heard) + self.repeat()
        } else {
            self.reply(heard)
        }
    }

    pub fn question_text(&self) -> (text: &'static str)
        ensures
            text@ == self.question(),
    {
        match self {
            PromptKind::FirstGame => "Do you want to play Blackjack? (yes/no) ",
            PromptKind::NextGame => "Keep playing Blackjack? (yes/no) ",
            PromptKind::HitOrStay => "Hit or Stay? ",
        }
    }

    /// Reads a token: the answer it gives, if it is one of the kind's two.
    pub fn read_token(&self, token: &str) -> (heard: Option<bool>)
        ensures
            heard == self.reading(token@),
    {
        let (go, stop) = match self {
            PromptKind::HitOrStay => ("hit", "stay"),
            _ => ("yes", "no"),
        };
        if *token == *go {
            Some(true)
        } else if *token == *stop {
            Some(false)
        } else {
            None
        }
    }

    pub fn reply_text(&self, heard: Option<bool>) -> (text: &'static str)
        ensures
            text@ == self.reply(heard),
    {
        match self {
            PromptKind::HitOrStay => match heard {
                Some(true) => "Okay, you want to hit.\n",
                Some(false) => "Okay, you want to stay.\n",
                None => "That didn't make any sense...\n",
            },
            _ => match heard {
                Some(true) => "Alright! Let's play!\n",
                Some(false) => "Okay. Maybe another time.\n",
                None => "I didn't understand that.\n",
            },
        }
    }

    pub fn repeat_text(&self) -> (text: &'static str)
        ensures
            text@ == self.repeat(),
    {
        match self {
            PromptKind::HitOrStay => "Let's try again... Hit or Stay? ",
            _ => {
                proof {
                    reveal_strlit("");
                    assert(""@ =~= Seq::<char>::empty());
                }
                ""
            },
        }
    }

    pub fn fallback_text(&self) -> (text: &'static str)
        ensures
            text@ == self.fallback(),
    {
        match self {
            PromptKind::HitOrStay => "Let's just assume you want to stay.\n",
            _ =>
            "There seems to be a failure to communicate between us. Perhaps we'll play another time.\n",
        }
    }
}

/// A question that is being asked: what it asks, how many answers it will
/// still read, and the answer it has understood.
#[derive(Debug)]
pub struct Prompt {
    kind: PromptKind,
    tries_remaining: u8,
    answer: Option<bool>,
}

impl Prompt {
    pub closed spec fn kind(&self) -> PromptKind {
        self.kind
    }

    /// The number of answers the prompt will still read.
    pub closed spec fn tries_remaining(&self) -> int {
        self.tries_remaining as int
    }

    /// The answer understood, if one was.
    pub closed spec fn answer(&self) -> Option<bool> {
        self.answer
    }

    /// The prompt reads another answer: it has understood none so far and
    /// has tries left.
    pub open spec fn is_waiting(&self) -> bool {
        self.answer() is None && self.tries_remaining() > 0
    }

    /// What the prompt settles on: the answer understood, or to stop.
    pub open spec fn settled(&self) -> bool {
        match self.answer() {
            Some(go_on) => go_on,
            None => false,
        }
    }

    /// What is written when the prompt closes: nothing after an answer that
    /// was understood, the fallback line otherwise.
    pub open spec fn closing(&self) -> Seq<char> {
        if self.answer() is None {
            self.kind().fallback()
        } else {
            Seq::empty()
        }
    }

    /// Opens a prompt of the given kind. Its question is
    /// [`PromptKind::question_text`].
    pub fn begin(kind: PromptKind) -> (prompt: Prompt)
        ensures
            prompt.kind() == kind,
            prompt.tries_remaining() == MAX_TRIES,
            prompt.answer() is None,
    {
        Prompt { kind: kind, tries_remaining: MAX_TRIES, answer: None }
    }

    pub fn waiting(&self) -> (waiting: bool)
        ensures
            waiting == self.is_waiting(),
    {
        self.answer.is_none() && self.tries_remaining > 0
    }

    /// Takes what an answer was read as, and uses up one try. Returns what
    /// is to be written back.
    pub fn record(&mut self, heard: Option<bool>) -> (said: String)
        requires
            old(self).is_waiting(),
        ensures
            final(self).kind() == old(self).kind(),
            final(self).tries_remaining() == old(self).tries_remaining() - 1,
            final(self).answer() == heard,
            said@ == old(self).kind().answer_text(heard, final(self).tries_remaining()),
    {
        self.answer = heard;
        self.tries_remaining -= 1;
        let mut said = String::from_str(self.kind.reply_text(heard));
        if heard.is_none() && self.tries_remaining > 0 {
            said.append(self.kind.repeat_text());
        }
        said
    }

    /// Takes a line of input as the next answer. Returns what is to be
    /// written back.
    pub fn hear(&mut self, line: &str) -> (said: String)
        requires
            old(self).is_waiting(),
        ensures
            final(self).kind() == old(self).kind(),
            final(self).tries_remaining() == old(self).tries_remaining() - 1,
            final(self).answer() == old(self).kind().reading(token_of(line@)),
            said@ == old(self).kind().answer_text(
                final(self).answer(),
                final(self).tries_remaining(),
            ),
    {
        let token = normalise(line);
        let heard = self.kind.read_token(token.as_str());
        self.record(heard)
    }

    /// Closes the prompt: what it settles on, and what is to be written last.
    pub fn conclude(&self) -> (end: (bool, &'static str))
        requires
            !self.is_waiting(),
        ensures
            end.0 == self.settled(),
            end.1@ == self.closing(),
    {
        match self.answer {
            Some(go_on) => {
                proof {
                    reveal_strlit("");
                    assert(""@ =~= Seq::<char>::empty());
                }
                (go_on, "")
            },
            None => (false, self.kind.fallback_text()),
        }
    }
}

/// The line that the `n`-th reading of `lines` gives: the line at `n`, and
/// the empty line once the input has come to its end.
pub open spec fn line_at(lines: Seq<Seq<char>>, n: int) -> Seq<char> {
    if 0 <= n < lines.len() {
        lines[n]
    } else {
        Seq::empty()
    }
}

/// What the `n`-th reading is understood as.
pub open spec fn heard_at(kind: PromptKind, lines: Seq<Seq<char>>, n: int) -> Option<bool> {
    kind.reading(token_of(line_at(lines, n)))
}

/// The number of readings a prompt makes of `lines` from the `from`-th on,
/// added to `from`: it stops at the first that is understood, and at
/// [`MAX_TRIES`] readings in all.
pub open spec fn readings(kind: PromptKind, lines: Seq<Seq<char>>, from: int) -> int
    decreases MAX_TRIES - from,
{
    if from >= MAX_TRIES {
        MAX_TRIES as int
    } else if heard_at(kind, lines, from) is Some {
        from + 1
    } else {
        readings(kind, lines, from + 1)
    }
}

/// The answer a prompt comes to on `lines`: that of its last reading.
pub open spec fn answer_on(kind: PromptKind, lines: Seq<Seq<char>>) -> Option<bool> {
    heard_at(kind, lines, readings(kind, lines, 0) - 1)
}

/// What a prompt settles on, on `lines`: the first answer understood among
/// the first [`MAX_TRIES`] lines, and to stop where there is none.
pub open spec fn settled_on(kind: PromptKind, lines: Seq<Seq<char>>) -> bool {
    match answer_on(kind, lines) {
        Some(go_on) => go_on,
        None => false,
    }
}

/// What a prompt writes in answer to its first `n` readings.
pub open spec fn exchange(kind: PromptKind, lines: Seq<Seq<char>>, n: int) -> Seq<char>
    decreases n,
{
    if n <= 0 {
        Seq::empty()
    } else {
        exchange(kind, lines, n - 1) + kind.answer_text(
            heard_at(kind, lines, n - 1),
            MAX_TRIES - n,
        )
    }
}

/// Everything a prompt writes on `lines`: the question, what it writes in
/// answer to each reading, and the fallback line where no answer was
/// understood.
pub open spec fn transcript(kind: PromptKind, lines: Seq<Seq<char>>) -> Seq<char> {
    kind.question() + exchange(kind, lines, readings(kind, lines, 0)) + if answer_on(kind, lines)
        is None {
        kind.fallback()
    } else {
        Seq::empty()
    }
}

/// Where the first `n` readings were not understood, the readings from the
/// start are those from `n` on.
proof fn lemma_readings_skip(kind: PromptKind, lines: Seq<Seq<char>>, n: int)
    requires
        0 <= n <= MAX_TRIES,
        forall|m: int| 0 <= m < n ==> heard_at(kind, lines, m) is None,
    ensures
        readings(kind, lines, 0) == readings(kind, lines, n),
    decreases n,
{
    if n > 0 {
        lemma_readings_skip(kind, lines, n - 1);
    }
}

/// Asks a question of the given kind of an input that was read beforehand,
/// line by line. Returns what the prompt settles on and everything it writes.
pub fn ask(kind: PromptKind, lines: &Vec<String>) -> (end: (bool, String))
    ensures
        end.0 == settled_on(kind, lines.deep_view()),
        end.1@ == transcript(kind, lines.deep_view()),
{
    let ghost input = lines.deep_view();
    let mut prompt = Prompt::begin(kind);
    let mut written = String::from_str(kind.question_text());
    let mut read: usize = 0;
    while prompt.waiting()
        invariant
            input == lines.deep_view(),
            prompt.kind() == kind,
            0 <= read <= MAX_TRIES,
            prompt.tries_remaining() == MAX_TRIES - read,
            forall|n: int| 0 <= n < read - 1 ==> heard_at(kind, input, n) is None,
            prompt.answer() == if read == 0 {
                None
            } else {
                heard_at(kind, input, read - 1)
            },
            written@ == kind.question() + exchange(kind, input, read as int),
        decreases prompt.tries_remaining(),
    {
        let said = if read < lines.len() {
            assert(lines.deep_view()[read as int] == lines[read as int]@);
            prompt.hear(lines[read].as_str())
        } else {
            proof {
                reveal_strlit("");
                assert(""@ =~= Seq::<char>::empty());
            }
            prompt.hear("")
        };
        read += 1;
        written.append(said.as_str());
        proof {
            assert(written@ =~= kind.question() + exchange(kind, input, read as int));
        }
    }
    proof {
        if prompt.answer() is Some {
            lemma_readings_skip(kind, input, read - 1);
        } else {
            lemma_readings_skip(kind, input, read as int);
        }
        assert(readings(kind, input, 0) == read);
    }
    let (go_on, last) = prompt.conclude();
    written.append(last);
    proof {
        assert(written@ =~= transcript(kind, input));
    }
    (go_on, written)
}

/// Asks whether to play, the first time or again, of an input that was read
/// beforehand. Returns the answer (`true` to play) and everything written.
pub fn ask_play_blackjack_get_response(first_game: bool, lines: &Vec<String>) -> (end: (
    bool,
    String,
))
    ensures
        end.0 == settled_on(play_prompt(first_game), lines.deep_view()),
        end.1@ == transcript(play_prompt(first_game), lines.deep_view()),
{
    let kind = match first_game {
        true => PromptKind::FirstGame,
        false => PromptKind::NextGame,
    };
    ask(kind, lines)
}

/// The kind of the question whether to play.
pub open spec fn play_prompt(first_game: bool) -> PromptKind {
    if first_game {
        PromptKind::FirstGame
    } else {
        PromptKind::NextGame
    }
}

/// A prompt settles on the first answer that it understands among the first
/// [`MAX_TRIES`] lines, whatever stands before it.
pub proof fn lemma_first_understood_settles(kind: PromptKind, lines: Seq<Seq<char>>, n: int)
    requires
        0 <= n < MAX_TRIES,
        heard_at(kind, lines, n) is Some,
        forall|m: int| 0 <= m < n ==> heard_at(kind, lines, m) is None,
    ensures
        answer_on(kind, lines) == heard_at(kind, lines, n),
        settled_on(kind, lines) == heard_at(kind, lines, n)->0,
        readings(kind, lines, 0) == n + 1,
{
    lemma_readings_skip(kind, lines, n);
}

/// Where none of the first [`MAX_TRIES`] lines is understood (an input that
/// has ended gives empty lines), a prompt settles on stopping: not to play,
/// and to stay. It has then made all its readings and ends on the fallback
/// line.
pub proof fn lemma_not_understood_falls_back(kind: PromptKind, lines: Seq<Seq<char>>)
    requires
        forall|n: int| 0 <= n < MAX_TRIES ==> heard_at(kind, lines, n) is None,
    ensures
        answer_on(kind, lines) is None,
        settled_on(kind, lines) == false,
        readings(kind, lines, 0) == MAX_TRIES,
        transcript(kind, lines) == kind.question() + exchange(kind, lines, MAX_TRIES as int)
            + kind.fallback(),
{
    lemma_readings_skip(kind, lines, MAX_TRIES as int);
}

} // verus!
