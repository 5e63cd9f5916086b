//! The course of one request, from its arrival to what the caller is shown.
//!
//! A request is first held against the size ceiling, then classified by the
//! registry, then handed to its generator under a time limit. It ends in a
//! thumbnail or in exactly one placeholder. Nothing is tried twice within a
//! request.

use vstd::prelude::*;

use crate::bitmap::{argb_words, pack_argb};
use crate::executor::JobOutcome;
use crate::model::{rgba_len, GenerationResult, PlaceholderKind};

verus! {

/// The largest source that is handed to a generator, in bytes: 300 MiB.
pub const MAX_SOURCE_BYTES: u64 = 300 * 1024 * 1024;

/// How long a caller waits for a generator, in seconds.
pub const RENDER_LIMIT_SECS: u64 = 5;

/// Where a request stands.
#[derive(Debug, Clone, Copy, PartialEq, Eq, Structural)]
pub enum Phase {
    /// Nothing is known of the request yet.
    Idle,
    /// The size was accepted; the registry is being asked.
    Sniffing,
    /// A generator took the file and is at work.
    Dispatched,
    /// The generator returned a thumbnail.
    Completed,
    /// The time limit passed before the generator returned.
    TimedOut,
    /// The source is over the size ceiling; no generator was asked.
    TooLarge,
    /// No generator takes the file, or the generator failed or crashed.
    CrashedOrError,
}

/// How the generator's run ended, as far as the course of the request
/// depends on it.
#[derive(Debug, Clone, Copy, PartialEq, Eq, Structural)]
pub enum Verdict {
    /// The generator returned a buffer of the length that the size asks for.
    Thumbnail,
    /// The generator returned an error, or a buffer of another length.
    Failed,
    /// The time limit passed.
    TimedOut,
    /// The worker panicked.
    Crashed,
}

/// What happens to a request.
#[derive(Debug, Clone, Copy, PartialEq, Eq, Structural)]
pub enum Event {
    /// The request arrived; its source has this many bytes.
    Arrived(u64),
    /// The registry answered: whether some generator takes the file.
    Classified(bool),
    /// The bounded run of the generator ended.
    Returned(Verdict),
}

impl Phase {
    /// The phase after `event`. An event that does not belong to the phase
    /// changes nothing.
    pub open spec fn next(self, event: Event) -> Phase {
        match (self, event) {
            (Phase::Idle, Event::Arrived(size)) => if size > MAX_SOURCE_BYTES {
                Phase::TooLarge
            } else {
                Phase::Sniffing
            },
            (Phase::Sniffing, Event::Classified(true)) => Phase::Dispatched,
            (Phase::Sniffing, Event::Classified(false)) => Phase::CrashedOrError,
            (Phase::Dispatched, Event::Returned(Verdict::Thumbnail)) => Phase::Completed,
            (Phase::Dispatched, Event::Returned(Verdict::TimedOut)) => Phase::TimedOut,
            (Phase::Dispatched, Event::Returned(_)) => Phase::CrashedOrError,
            _ => self,
        }
    }

    /// The phase after all of `events`, in order.
    pub open spec fn after(self, events: Seq<Event>) -> Phase
        decreases events.len(),
    {
        if events.len() == 0 {
            self
        } else {
            self.next(events[0]).after(events.drop_first())
        }
    }

    /// The request has ended.
    pub open spec fn is_final(self) -> bool {
        self == Phase::Completed || self == Phase::TimedOut || self == Phase::TooLarge || self
            == Phase::CrashedOrError
    }

    /// The placeholder that a caller is shown in this phase: none once the
    /// thumbnail is there, "loading" while the request is under way.
    pub open spec fn placeholder(self) -> Option<PlaceholderKind> {
        match self {
            Phase::Idle | Phase::Sniffing | Phase::Dispatched => Some(PlaceholderKind::Loading),
            Phase::Completed => None,
            Phase::TimedOut => Some(PlaceholderKind::TimedOut),
            Phase::TooLarge => Some(PlaceholderKind::TooLarge),
            Phase::CrashedOrError => Some(PlaceholderKind::Error),
        }
    }

    /// Whether the thumbnail is put into the cache on this event: exactly on
    /// the step from `Dispatched` to `Completed`, before the caller gets it.
    pub open spec fn puts_to_cache(self, event: Event) -> bool {
        self == Phase::Dispatched && self.next(event) == Phase::Completed
    }

    /// Whether the thumbnail that came with `event` is to be stored.
    pub fn stores(self, event: Event) -> (store: bool)
        ensures
            store == self.puts_to_cache(event),
    {
        match (self, event) {
            (Phase::Dispatched, Event::Returned(Verdict::Thumbnail)) => true,
            _ => false,
        }
    }

    /// Moves on by one event.
    pub fn step(self, event: Event) -> (next: Phase)
        ensures
            next == self.next(event),
    {
        match self {
            Phase::Idle => match event {
                Event::Arrived(size) => if size > MAX_SOURCE_BYTES {
                    Phase::TooLarge
                } else {
                    Phase::Sniffing
                },
                _ => self,
            },
            Phase::Sniffing => match event {
                Event::Classified(true) => Phase::Dispatched,
                Event::Classified(false) => Phase::CrashedOrError,
                _ => self,
            },
            Phase::Dispatched => match event {
                Event::Returned(Verdict::Thumbnail) => Phase::Completed,
                Event::Returned(Verdict::TimedOut) => Phase::TimedOut,
                Event::Returned(_) => Phase::CrashedOrError,
                _ => self,
            },
            _ => self,
        }
    }

    /// The placeholder for this phase, if it has one.
    pub fn shown(self) -> (kind: Option<PlaceholderKind>)
        ensures
            kind == self.placeholder(),
    {
        match self {
            Phase::Idle | Phase::Sniffing | Phase::Dispatched => Some(PlaceholderKind::Loading),
            Phase::Completed => None,
            Phase::TimedOut => Some(PlaceholderKind::TimedOut),
            Phase::TooLarge => Some(PlaceholderKind::TooLarge),
            Phase::CrashedOrError => Some(PlaceholderKind::Error),
        }
    }
}

/// What a caller gets: a thumbnail, or one of the four placeholders.
pub enum Reply {
    Thumbnail(GenerationResult),
    Placeholder(PlaceholderKind),
}

impl Reply {
    /// The thumbnail as the words of a bitmap of the shell, one for each
    /// pixel, row by row: alpha in the highest byte, then red, green and
    /// blue. A placeholder has no words of its own: the host holds its
    /// picture.
    pub fn words(&self) -> (packed: Option<Vec<u32>>)
        ensures
            match *self {
                Reply::Thumbnail(image) => {
                    &&& packed matches Some(words)
                    &&& words@ == argb_words(image.pixels())
                    &&& words@.len() == image.spec_width() * image.spec_height()
                },
                Reply::Placeholder(_) => packed is None,
            },
    {
        match self {
            Reply::Thumbnail(image) => {
                let words = pack_argb(image.buffer());
                assert(words@.len() == image.spec_width() * image.spec_height()) by {
                    assert(image.pixels().len() == image.spec_width() * image.spec_height() * 4);
                }
                Some(words)
            },
            Reply::Placeholder(_) => None,
        }
    }
}

/// The verdict on a bounded run that was to give an image of `width` by
/// `height` pixels.
pub open spec fn verdict_on(
    outcome: JobOutcome<Result<Vec<u8>, String>>,
    width: u32,
    height: u32,
) -> Verdict {
    match outcome {
        JobOutcome::Completed(Ok(buffer)) => if buffer@.len() == rgba_len(width, height) {
            Verdict::Thumbnail
        } else {
            Verdict::Failed
        },
        JobOutcome::Completed(Err(_)) => Verdict::Failed,
        JobOutcome::TimedOut => Verdict::TimedOut,
        JobOutcome::Panicked => Verdict::Crashed,
    }
}

/// Turns the end of a generator's bounded run into what the caller gets: the
/// image if the generator returned a buffer of exactly the length that
/// `width` and `height` ask for, else the placeholder for what went wrong.
/// The second part of the result is the verdict on the run.
pub fn conclude(outcome: JobOutcome<Result<Vec<u8>, String>>, width: u32, height: u32) -> (end: (
    Reply,
    Verdict,
))
    ensures
        end.1 == verdict_on(outcome, width, height),
        match end.0 {
            Reply::Thumbnail(image) => {
                &&& outcome matches JobOutcome::Completed(Ok(buffer))
                &&& image.pixels() == buffer@
                &&& image.pixels().len() == rgba_len(width, height)
                &&& image.spec_width() == width
                &&& image.spec_height() == height
                &&& end.1 == Verdict::Thumbnail
            },
            Reply::Placeholder(kind) => {
                &&& end.1 != Verdict::Thumbnail
                &&& Some(kind) == Phase::Dispatched.next(Event::Returned(end.1)).placeholder()
            },
        },
{
    match outcome {
        JobOutcome::Completed(Ok(buffer)) => {
            match GenerationResult::new(width, height, buffer) {
                Some(image) => (Reply::Thumbnail(image), Verdict::Thumbnail),
                None => (Reply::Placeholder(PlaceholderKind::Error), Verdict::Failed),
            }
        },
        JobOutcome::Completed(Err(_)) => (
            Reply::Placeholder(PlaceholderKind::Error),
            Verdict::Failed,
        ),
        JobOutcome::TimedOut => (Reply::Placeholder(PlaceholderKind::TimedOut), Verdict::TimedOut),
        JobOutcome::Panicked => (Reply::Placeholder(PlaceholderKind::Error), Verdict::Crashed),
    }
}

/// A request that has ended stays where it is, whatever happens later.
pub proof fn lemma_final_phase_stays(phase: Phase, events: Seq<Event>)
    requires
        phase.is_final(),
    ensures
        phase.after(events) == phase,
    decreases events.len(),
{
    if events.len() > 0 {
        lemma_final_phase_stays(phase, events.drop_first());
    }
}

/// A source over the size ceiling ends the request at once in `TooLarge`:
/// whatever happens after its arrival, the request is never handed to a
/// generator, and the caller is shown the "too large" placeholder.
pub proof fn lemma_oversized_source_is_never_dispatched(size: u64, later: Seq<Event>)
    requires
        size > MAX_SOURCE_BYTES,
    ensures
        Phase::Idle.next(Event::Arrived(size)) == Phase::TooLarge,
        Phase::Idle.next(Event::Arrived(size)).after(later) == Phase::TooLarge,
        Phase::TooLarge.placeholder() == Some(PlaceholderKind::TooLarge),
        forall|k: int|
            0 <= k <= later.len() ==> Phase::Idle.next(Event::Arrived(size)).after(
                #[trigger] later.take(k),
            ) != Phase::Dispatched,
{
    lemma_final_phase_stays(Phase::TooLarge, later);
    assert forall|k: int| 0 <= k <= later.len() implies Phase::TooLarge.after(
        #[trigger] later.take(k),
    ) != Phase::Dispatched by {
        lemma_final_phase_stays(Phase::TooLarge, later.take(k));
    }
}

/// A request that has ended without a thumbnail shows one placeholder, and
/// a different one for each way of ending; one that ended with a thumbnail
/// shows none.
pub proof fn lemma_one_placeholder_for_each_end(phase: Phase)
    requires
        phase.is_final(),
    ensures
        phase == Phase::Completed <==> phase.placeholder() is None,
        phase == Phase::TimedOut <==> phase.placeholder() == Some(PlaceholderKind::TimedOut),
        phase == Phase::TooLarge <==> phase.placeholder() == Some(PlaceholderKind::TooLarge),
        phase == Phase::CrashedOrError <==> phase.placeholder() == Some(PlaceholderKind::Error),
{
}

/// Nothing but a finished thumbnail is put into the cache: a request stores
/// at most once, on the event that completes it, and a request that ends in
/// a placeholder never stores.
pub proof fn lemma_only_thumbnails_are_stored(phase: Phase, event: Event)
    ensures
        phase.puts_to_cache(event) <==> phase == Phase::Dispatched && event == Event::Returned(
            Verdict::Thumbnail,
        ),
        phase.puts_to_cache(event) ==> phase.next(event).placeholder() is None,
        phase.is_final() ==> !phase.puts_to_cache(event),
{
}

} // verus!
