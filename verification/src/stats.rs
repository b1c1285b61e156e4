//! The counters of a job. One owner holds them and takes the messages of
//! all workers in the order in which they arrive.

use vstd::prelude::*;
use crate::path::{Component, copy_path};
use crate::worker::rsa::handler::Transformed;

verus! {

/// The counters of a job at one moment.
#[derive(Debug)]
pub struct CurrentStats {
    /// Bytes read from the files that were transformed.
    pub bytes: u64,
    /// Files that were transformed.
    pub files: u64,
    /// Files that were found and are not yet done.
    pub counter: u64,
    /// The target path that the last `Update` named.
    pub last: Vec<Component<String>>,
}

/// What the owner of the counters is told.
#[derive(Debug)]
pub enum StatMessage {
    /// A file was transformed: the bytes read, and a path to remember.
    Update(u64, Vec<Component<String>>),
    /// The counters are asked for.
    Request,
    /// A file was found.
    IncrementCount,
    /// A file is done, whatever became of it.
    DecrementCount,
}

/// The counters as contracts see them.
pub struct StatsView {
    pub bytes: nat,
    pub files: nat,
    pub counter: nat,
    pub last: Seq<Component<String>>,
}

/// A message as contracts see it.
pub enum MessageView {
    Update(nat, Seq<Component<String>>),
    Request,
    IncrementCount,
    DecrementCount,
}

impl View for CurrentStats {
    type V = StatsView;

    open spec fn view(&self) -> StatsView {
        StatsView {
            bytes: self.bytes as nat,
            files: self.files as nat,
            counter: self.counter as nat,
            last: self.last@,
        }
    }
}

impl View for StatMessage {
    type V = MessageView;

    open spec fn view(&self) -> MessageView {
        match self {
            StatMessage::Update(bytes, path) => MessageView::Update(*bytes as nat, path@),
            StatMessage::Request => MessageView::Request,
            StatMessage::IncrementCount => MessageView::IncrementCount,
            StatMessage::DecrementCount => MessageView::DecrementCount,
        }
    }
}

impl StatsView {
    /// The counters of a job that has not begun.
    pub open spec fn zero() -> StatsView {
        StatsView { bytes: 0, files: 0, counter: 0, last: Seq::empty() }
    }

    /// The counters after `message`. An `Update` adds its bytes and one file
    /// and names the last path. The count of open files goes up by one and
    /// down by one, and stays at zero where it is zero. A `Request` changes
    /// nothing.
    pub open spec fn apply(self, message: MessageView) -> StatsView {
        match message {
            MessageView::Update(bytes, path) => StatsView {
                bytes: self.bytes + bytes,
                files: self.files + 1,
                counter: self.counter,
                last: path,
            },
            MessageView::Request => self,
            MessageView::IncrementCount => StatsView {
                bytes: self.bytes,
                files: self.files,
                counter: self.counter + 1,
                last: self.last,
            },
            MessageView::DecrementCount => StatsView {
                bytes: self.bytes,
                files: self.files,
                counter: if self.counter > 0 {
                    (self.counter - 1) as nat
                } else {
                    0
                },
                last: self.last,
            },
        }
    }

    /// The counters can take `message`: what it adds to can still be held in
    /// 64 bits. A message that adds to nothing can always be taken.
    pub open spec fn fits(self, message: MessageView) -> bool {
        match message {
            MessageView::Update(bytes, _) => self.bytes + bytes <= u64::MAX && self.files + 1
                <= u64::MAX,
            MessageView::IncrementCount => self.counter + 1 <= u64::MAX,
            MessageView::Request | MessageView::DecrementCount => true,
        }
    }

    /// The counters after each of `messages`, in their order.
    pub open spec fn apply_all(self, messages: Seq<MessageView>) -> StatsView
        decreases messages.len(),
    {
        if messages.len() == 0 {
            self
        } else {
            self.apply_all(messages.drop_last()).apply(messages.last())
        }
    }
}

/// The owner of the counters.
pub struct StatWorker {
    stats: CurrentStats,
}

impl View for StatWorker {
    type V = StatsView;

    closed spec fn view(&self) -> StatsView {
        self.stats@
    }
}

impl StatWorker {
    /// The owner of the counters of a job that has not begun.
    pub fn new() -> (worker: Self)
        ensures
            worker@ == StatsView::zero(),
    {
        StatWorker { stats: CurrentStats { bytes: 0, files: 0, counter: 0, last: Vec::new() } }
    }

    /// Whether the counters can take `msg`: whether each of them can still
    /// be held in 64 bits after it.
    pub fn accepts(&self, msg: &StatMessage) -> (yes: bool)
        ensures
            yes == self@.fits(msg@),
    {
        match msg {
            StatMessage::Update(bytes, _) => self.stats.files < u64::MAX && *bytes <= u64::MAX
                - self.stats.bytes,
            StatMessage::Request => true,
            StatMessage::IncrementCount => self.stats.counter < u64::MAX,
            StatMessage::DecrementCount => true,
        }
    }

    /// Takes one message. A `Request` is answered with a copy of the
    /// counters, any other message changes them and has no answer.
    pub fn handle_message(&mut self, msg: StatMessage) -> (answer: Option<CurrentStats>)
        requires
            old(self)@.fits(msg@),
        ensures
            final(self)@ == old(self)@.apply(msg@),
            match answer {
                Some(stats) => msg is Request && stats@ == old(self)@,
                None => !(msg is Request),
            },
    {
        match msg {
            StatMessage::Update(bytes, file) => {
                self.stats.files += 1;
                self.stats.bytes += bytes;
                self.stats.last = file;
                None
            },
            StatMessage::Request => {
                Some(
                    CurrentStats {
                        bytes: self.stats.bytes,
                        files: self.stats.files,
                        counter: self.stats.counter,
                        last: copy_path(&self.stats.last),
                    },
                )
            },
            StatMessage::IncrementCount => {
                self.stats.counter += 1;
                None
            },
            StatMessage::DecrementCount => {
                if self.stats.counter > 0 {
                    self.stats.counter -= 1;
                }
                None
            },
        }
    }
}

/// What is told about a file that the handler is done with: that it is done,
/// and, where it was transformed, its bytes and its target path.
pub open spec fn report_of<E>(outcome: Result<Transformed, E>) -> Seq<MessageView> {
    match outcome {
        Ok(Transformed::Processed(bytes, target)) => seq![
            MessageView::DecrementCount,
            MessageView::Update(bytes as nat, target@),
        ],
        _ => seq![MessageView::DecrementCount],
    }
}

/// The messages of `messages` as contracts see them.
pub open spec fn message_views(messages: Seq<StatMessage>) -> Seq<MessageView> {
    messages.map_values(|m: StatMessage| m@)
}

/// The messages for a file that the handler is done with.
pub fn report<E>(outcome: Result<Transformed, E>) -> (messages: Vec<StatMessage>)
    ensures
        message_views(messages@) == report_of(outcome),
{
    let mut messages: Vec<StatMessage> = Vec::new();
    messages.push(StatMessage::DecrementCount);
    match outcome {
        Ok(Transformed::Processed(bytes, target)) => {
            messages.push(StatMessage::Update(bytes, target));
        },
        _ => {},
    }
    messages
}

/// A file that the handler is done with is no longer open, whatever became
/// of it; it is counted as a file, with its bytes and its target path, just
/// where it was transformed.
pub proof fn lemma_report_counts<E>(start: StatsView, outcome: Result<Transformed, E>)
    ensures
        ({
            let end = start.apply_all(report_of(outcome));
            &&& end.counter == if start.counter > 0 {
                start.counter - 1
            } else {
                0
            }
            &&& match outcome {
                Ok(Transformed::Processed(bytes, target)) => {
                    &&& end.files == start.files + 1
                    &&& end.bytes == start.bytes + bytes
                    &&& end.last == target@
                },
                _ => end.files == start.files && end.bytes == start.bytes && end.last
                    == start.last,
            }
        }),
{
    let messages = report_of(outcome);
    reveal_with_fuel(StatsView::apply_all, 3);
    match outcome {
        Ok(Transformed::Processed(bytes, target)) => {
            assert(messages.drop_last() =~= seq![MessageView::DecrementCount]);
            assert(messages.drop_last().drop_last() =~= Seq::<MessageView>::empty());
        },
        _ => {
            assert(messages.drop_last() =~= Seq::<MessageView>::empty());
        },
    }
}

/// The sum of `numbers`.
pub open spec fn sum(numbers: Seq<nat>) -> nat
    decreases numbers.len(),
{
    if numbers.len() == 0 {
        0
    } else {
        sum(numbers.drop_last()) + numbers.last()
    }
}

/// One `Update` for each of `bytes`, with the path of the same place in
/// `paths`.
pub open spec fn updates(bytes: Seq<nat>, paths: Seq<Seq<Component<String>>>) -> Seq<MessageView> {
    Seq::new(bytes.len(), |i: int| MessageView::Update(bytes[i], paths[i]))
}

/// The sum of `count` numbers that are all `each` is `count` times `each`.
pub proof fn lemma_sum_of_equals(numbers: Seq<nat>, each: nat)
    requires
        forall|i: int| 0 <= i < numbers.len() ==> #[trigger] numbers[i] == each,
    ensures
        sum(numbers) == numbers.len() * each,
    decreases numbers.len(),
{
    if numbers.len() > 0 {
        lemma_sum_of_equals(numbers.drop_last(), each);
        assert(numbers.len() * each == (numbers.len() - 1) * each + each) by (nonlinear_arith);
    } else {
        assert(numbers.len() * each == 0) by (nonlinear_arith)
            requires
                numbers.len() == 0,
        ;
    }
}

/// After the `Update`s of any number of files of one size, whatever paths
/// they name and in whatever order they come, the counters have grown by the
/// number of the files and by that many times their size.
pub proof fn lemma_files_of_one_size_add_up(
    start: StatsView,
    bytes: Seq<nat>,
    paths: Seq<Seq<Component<String>>>,
    each: nat,
)
    requires
        bytes.len() == paths.len(),
        forall|i: int| 0 <= i < bytes.len() ==> #[trigger] bytes[i] == each,
    ensures
        start.apply_all(updates(bytes, paths)).bytes == start.bytes + bytes.len() * each,
        start.apply_all(updates(bytes, paths)).files == start.files + bytes.len(),
{
    lemma_updates_add_up(start, bytes, paths);
    lemma_sum_of_equals(bytes, each);
}

/// After one `Update` for each transformed file, the counters hold the sum of
/// their bytes and the number of the files, and the last path is that of the
/// last `Update`.
pub proof fn lemma_updates_add_up(
    start: StatsView,
    bytes: Seq<nat>,
    paths: Seq<Seq<Component<String>>>,
)
    requires
        bytes.len() == paths.len(),
    ensures
        start.apply_all(updates(bytes, paths)).bytes == start.bytes + sum(bytes),
        start.apply_all(updates(bytes, paths)).files == start.files + bytes.len(),
        start.apply_all(updates(bytes, paths)).counter == start.counter,
        start.apply_all(updates(bytes, paths)).last == if bytes.len() > 0 {
            paths.last()
        } else {
            start.last
        },
    decreases bytes.len(),
{
    if bytes.len() > 0 {
        lemma_updates_add_up(start, bytes.drop_last(), paths.drop_last());
        assert(updates(bytes, paths).drop_last() =~= updates(bytes.drop_last(), paths.drop_last()));
    }
}

} // verus!
