use super::sync::{readers_counted, writer_present, READER, WRITER};
use vstd::prelude::*;

verus! {

/// Everybody who is busy with one lock, and the word as it stands.
pub struct Contention {
    /// The value of the lock word.
    pub word: u32,
    /// Readers that hold the lock.
    pub readers: nat,
    /// Writers that hold the lock.
    pub writers: nat,
    /// Readers that added themselves to the word, found a writer, and have
    /// not taken their addition back yet.
    pub retreating: nat,
}

/// One atomic step of one party on the lock word.
pub enum Step {
    /// A reader adds itself to the word and looks at what was there.
    ReaderArrives,
    /// A reader that found a writer takes its addition back.
    ReaderRetreats,
    /// A reader that holds the lock leaves.
    ReaderLeaves,
    /// A writer tries to exchange an empty word for its bit; `spurious` is a
    /// failure of the exchange for no reason, which the weak exchange allows.
    WriterTries { spurious: bool },
    /// The writer that holds the lock leaves.
    WriterLeaves,
}

/// A 32-bit word after `amount` was added to it, wrapping around.
pub open spec fn word_plus(word: u32, amount: int) -> u32 {
    ((word + amount) % 0x1_0000_0000) as u32
}

impl Contention {
    /// The lock when it has just been made.
    pub open spec fn idle() -> Contention {
        Contention { word: 0, readers: 0, writers: 0, retreating: 0 }
    }

    /// Whether `step` can be taken: a party can only leave or retreat if it
    /// is there, and the word has room for one more reader's addition.
    pub open spec fn allows(self, step: Step) -> bool {
        match step {
            Step::ReaderArrives => 2 * (self.readers + self.retreating) + 2 + self.writers
                <= u32::MAX,
            Step::ReaderRetreats => self.retreating > 0,
            Step::ReaderLeaves => self.readers > 0,
            Step::WriterTries { .. } => true,
            Step::WriterLeaves => self.writers > 0,
        }
    }

    /// The lock after `step`.
    pub open spec fn after(self, step: Step) -> Contention {
        match step {
            Step::ReaderArrives => if writer_present(self.word) {
                Contention {
                    word: word_plus(self.word, READER as int),
                    retreating: self.retreating + 1,
                    ..self
                }
            } else {
                Contention {
                    word: word_plus(self.word, READER as int),
                    readers: self.readers + 1,
                    ..self
                }
            },
            Step::ReaderRetreats => Contention {
                word: word_plus(self.word, -(READER as int)),
                retreating: (self.retreating - 1) as nat,
                ..self
            },
            Step::ReaderLeaves => Contention {
                word: word_plus(self.word, -(READER as int)),
                readers: (self.readers - 1) as nat,
                ..self
            },
            Step::WriterTries { spurious } => if self.word == 0 && !spurious {
                Contention { word: WRITER, writers: self.writers + 1, ..self }
            } else {
                self
            },
            Step::WriterLeaves => Contention {
                word: word_plus(self.word, -(WRITER as int)),
                writers: (self.writers - 1) as nat,
                ..self
            },
        }
    }

    /// The word counts everybody who added to it: two for each reader that
    /// holds the lock or is retreating, one for the writer.
    pub open spec fn accounted(self) -> bool {
        self.word == 2 * (self.readers + self.retreating) + self.writers
    }

    /// Readers and a writer never hold the lock together, and no two writers
    /// do.
    pub open spec fn exclusive(self) -> bool {
        (self.writers == 0) || (self.readers == 0 && self.writers == 1)
    }

    /// The lock after all of `steps`, taken in order.
    pub open spec fn after_all(self, steps: Seq<Step>) -> Contention
        decreases steps.len(),
    {
        if steps.len() == 0 {
            self
        } else {
            self.after_all(steps.drop_last()).after(steps.last())
        }
    }

    /// Whether each of `steps` can be taken when its turn comes.
    pub open spec fn allows_all(self, steps: Seq<Step>) -> bool
        decreases steps.len(),
    {
        if steps.len() == 0 {
            true
        } else {
            self.allows_all(steps.drop_last()) && self.after_all(steps.drop_last()).allows(
                steps.last(),
            )
        }
    }
}

/// One step keeps the books and the exclusion: if the word counts everybody
/// and readers and writer exclude each other before a step that can be
/// taken, the same holds after it.
pub proof fn lemma_step_keeps_exclusion(before: Contention, step: Step)
    requires
        before.accounted(),
        before.exclusive(),
        before.allows(step),
    ensures
        before.after(step).accounted(),
        before.after(step).exclusive(),
{
}

/// However many readers and writers contend for a lock, and in whatever
/// order their steps fall, at every moment either no writer holds it, or one
/// writer holds it and no reader does.
pub proof fn lemma_never_both(steps: Seq<Step>)
    requires
        Contention::idle().allows_all(steps),
    ensures
        forall|moment: int|
            0 <= moment <= steps.len() ==> (#[trigger] Contention::idle().after_all(
                steps.take(moment),
            )).accounted() && Contention::idle().after_all(steps.take(moment)).exclusive(),
    decreases steps.len(),
{
    assert forall|moment: int| 0 <= moment <= steps.len() implies (
    #[trigger] Contention::idle().after_all(steps.take(moment))).accounted()
        && Contention::idle().after_all(steps.take(moment)).exclusive() by {
        if moment == steps.len() {
            assert(steps.take(moment) == steps);
            if steps.len() > 0 {
                lemma_never_both(steps.drop_last());
                assert(steps.drop_last().take(steps.len() - 1) == steps.drop_last());
                lemma_step_keeps_exclusion(
                    Contention::idle().after_all(steps.drop_last()),
                    steps.last(),
                );
            }
        } else {
            lemma_never_both(steps.drop_last());
            assert(steps.drop_last().take(moment) == steps.take(moment));
        }
    }
}

/// What the word tells while the books are kept: its lowest bit says whether
/// a writer holds the lock, the rest counts the readers that hold it or are
/// retreating, and it is empty exactly when nobody is there. So a reader is
/// let in exactly when no writer holds the lock, and a writer's exchange can
/// only take place when nobody holds it and nobody is retreating.
pub proof fn lemma_admission(state: Contention)
    requires
        state.accounted(),
        state.exclusive(),
    ensures
        writer_present(state.word) <==> state.writers == 1,
        readers_counted(state.word) == state.readers + state.retreating,
        state.word == 0 <==> state.readers == 0 && state.writers == 0 && state.retreating == 0,
{
}

} // verus!
