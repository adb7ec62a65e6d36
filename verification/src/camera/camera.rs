//! The `Camera` struct and helper types.

use crate::camera::image::{Image, ImageView};
use vstd::prelude::*;

verus! {

/// A remote camera: a directory of images.
#[derive(Debug, PartialEq, Eq)]
pub struct Camera {
    path: String,
}

impl View for Camera {
    type V = Seq<char>;

    closed spec fn view(&self) -> Seq<char> {
        self.path@
    }
}

impl Clone for Camera {
    fn clone(&self) -> (copy: Camera)
        ensures
            copy@ == self@,
    {
        Camera { path: self.path.clone() }
    }
}

/// An error returned when there's a problem calculating a camera's interval.
#[derive(Debug, PartialEq, Eq)]
pub enum IntervalError {
    /// There are fewer than two images in this camera.
    NoImages(Camera),
    /// There are two or more intervals tied for the most common; they are
    /// listed in seconds, from the shortest to the longest.
    Ambiguous(Vec<i64>),
}

/// The times between each image and the next, in seconds.
pub open spec fn gaps(images: Seq<ImageView>) -> Seq<i64> {
    Seq::new(
        if images.len() > 0 {
            (images.len() - 1) as nat
        } else {
            0
        },
        |i: int| (images[i + 1].datetime - images[i].datetime) as i64,
    )
}

/// How often `gap` occurs among `gaps`.
pub open spec fn count(gaps: Seq<i64>, gap: i64) -> nat
    decreases gaps.len(),
{
    if gaps.len() == 0 {
        0
    } else if gaps.last() == gap {
        count(gaps.drop_last(), gap) + 1
    } else {
        count(gaps.drop_last(), gap)
    }
}

/// Whether `gap` occurs among `gaps`, and nothing occurs more often.
pub open spec fn is_most_common(gaps: Seq<i64>, gap: i64) -> bool {
    count(gaps, gap) > 0 && forall|other: i64| count(gaps, other) <= count(gaps, gap)
}

/// Whether every number is smaller than the next.
pub open spec fn is_increasing(numbers: Seq<i64>) -> bool {
    forall|i: int, j: int| 0 <= i < j < numbers.len() ==> numbers[i] < numbers[j]
}

/// Nothing occurs more often than there are gaps, and what occurs not at all is no gap.
pub proof fn lemma_count(gaps: Seq<i64>, gap: i64)
    ensures
        count(gaps, gap) <= gaps.len(),
        count(gaps, gap) > 0 <==> gaps.contains(gap),
    decreases gaps.len(),
{
    if gaps.len() > 0 {
        lemma_count(gaps.drop_last(), gap);
        if gaps.last() == gap {
            assert(gaps[gaps.len() - 1] == gap);
        } else if gaps.drop_last().contains(gap) {
            let k = choose|k: int| 0 <= k < gaps.drop_last().len() && gaps.drop_last()[k] == gap;
            assert(gaps[k] == gap);
        } else if gaps.contains(gap) {
            let k = choose|k: int| 0 <= k < gaps.len() && gaps[k] == gap;
            assert(gaps.drop_last()[k] == gap);
        }
    }
}

/// Counts how often `gap` occurs among `gaps`.
pub fn count_of(gaps: &Vec<i64>, gap: i64) -> (n: usize)
    ensures
        n == count(gaps@, gap),
{
    let mut n: usize = 0;
    let mut i: usize = 0;
    assert(gaps@.take(0) =~= Seq::<i64>::empty());
    while i < gaps.len()
        invariant
            i <= gaps.len(),
            n == count(gaps@.take(i as int), gap),
            n <= i,
        decreases gaps.len() - i,
    {
        assert(gaps@.take(i + 1).drop_last() =~= gaps@.take(i as int));
        if gaps[i] == gap {
            n = n + 1;
        }
        i = i + 1;
    }
    assert(gaps@.take(gaps.len() as int) =~= gaps@);
    n
}

/// Puts `number` into a list of increasing numbers, unless it is there already.
pub(crate) fn insert_increasing(numbers: &mut Vec<i64>, number: i64)
    requires
        is_increasing(old(numbers)@),
    ensures
        is_increasing(final(numbers)@),
        forall|other: i64|
            final(numbers)@.contains(other) <==> old(numbers)@.contains(other) || other == number,
{
    let ghost before = numbers@;
    let mut at: usize = 0;
    while at < numbers.len() && numbers[at] < number
        invariant
            at <= numbers.len(),
            numbers@ == before,
            is_increasing(before),
            forall|j: int| 0 <= j < at ==> before[j] < number,
        decreases numbers.len() - at,
    {
        at = at + 1;
    }
    if at < numbers.len() && numbers[at] == number {
        assert(before.contains(number));
        return ;
    }
    numbers.insert(at, number);
    proof {
        let after = numbers@;
        assert(after =~= before.insert(at as int, number));
        assert forall|i: int, j: int| 0 <= i < j < after.len() implies after[i] < after[j] by {
            if j < at {
                assert(after[i] == before[i] && after[j] == before[j]);
            } else if j == at {
                assert(after[i] == before[i]);
            } else if i == at {
                assert(after[j] == before[j - 1]);
                assert(before[at as int] <= before[j - 1]) by {
                    if at < j - 1 {
                        assert(before[at as int] < before[j - 1]);
                    }
                }
            } else if i < at {
                assert(after[i] == before[i] && after[j] == before[j - 1]);
            } else {
                assert(after[i] == before[i - 1] && after[j] == before[j - 1]);
            }
        }
        assert forall|other: i64|
            after.contains(other) <==> before.contains(other) || other == number by {
            if after.contains(other) {
                let k = choose|k: int| 0 <= k < after.len() && after[k] == other;
                if k < at {
                    assert(before[k] == other);
                } else if k > at {
                    assert(before[k - 1] == other);
                }
            }
            if before.contains(other) {
                let k = choose|k: int| 0 <= k < before.len() && before[k] == other;
                if k < at {
                    assert(after[k] == other);
                } else {
                    assert(after[k + 1] == other);
                }
            }
            if other == number {
                assert(after[at as int] == number);
            }
        }
    }
}

/// The times between each image and the next.
pub fn gaps_between(images: &Vec<Image>) -> (list: Vec<i64>)
    ensures
        list@ == gaps(images.deep_view()),
{
    let mut list: Vec<i64> = Vec::new();
    if images.len() == 0 {
        assert(list@ =~= gaps(images.deep_view()));
        return list;
    }
    let ghost all = images.deep_view();
    let mut i: usize = 0;
    while i + 1 < images.len()
        invariant
            i < images.len(),
            all == images.deep_view(),
            list@.len() == i,
            forall|j: int|
                0 <= j < i ==> list@[j] == (all[j + 1].datetime - all[j].datetime) as i64,
        decreases images.len() - i,
    {
        let earlier: i64 = images[i].datetime();
        let later: i64 = images[i + 1].datetime();
        assert(all[i as int] == images[i as int]@ && all[i + 1] == images[i + 1]@);
        list.push(later - earlier);
        i = i + 1;
    }
    assert(list@ =~= gaps(all));
    list
}

/// The most common of the gaps, if there is one that is more common than all the others.
pub fn most_common(gaps: &Vec<i64>) -> (r: Option<Result<i64, Vec<i64>>>)
    ensures
        match r {
            None => gaps@.len() == 0,
            Some(Ok(gap)) => is_most_common(gaps@, gap) && forall|other: i64|
                is_most_common(gaps@, other) ==> other == gap,
            Some(Err(most)) => most@.len() >= 2 && is_increasing(most@) && forall|gap: i64|
                most@.contains(gap) <==> is_most_common(gaps@, gap),
        },
{
    if gaps.len() == 0 {
        return None;
    }
    let mut counts: Vec<usize> = Vec::new();
    let mut highest: usize = 0;
    let ghost mut top: int = 0;
    let mut i: usize = 0;
    while i < gaps.len()
        invariant
            i <= gaps.len(),
            counts@.len() == i,
            forall|j: int| 0 <= j < i ==> counts@[j] == count(gaps@, gaps@[j]),
            forall|j: int| 0 <= j < i ==> counts@[j] <= highest,
            i == 0 ==> highest == 0,
            i > 0 ==> 0 <= top < i && counts@[top] == highest,
        decreases gaps.len() - i,
    {
        let n: usize = count_of(gaps, gaps[i]);
        counts.push(n);
        if n > highest || i == 0 {
            highest = n;
            proof {
                top = i as int;
            }
        }
        i = i + 1;
    }
    proof {
        lemma_count(gaps@, gaps@[top]);
        assert(highest > 0);
        assert forall|gap: i64| count(gaps@, gap) <= highest by {
            lemma_count(gaps@, gap);
            if gaps@.contains(gap) {
                let k = choose|k: int| 0 <= k < gaps@.len() && gaps@[k] == gap;
                assert(counts@[k] == count(gaps@, gap));
            }
        }
        assert forall|gap: i64| is_most_common(gaps@, gap) <==> count(gaps@, gap) == highest by {
            if is_most_common(gaps@, gap) {
                assert(count(gaps@, gaps@[top]) <= count(gaps@, gap));
            }
        }
    }
    let mut most: Vec<i64> = Vec::new();
    let mut i: usize = 0;
    while i < gaps.len()
        invariant
            i <= gaps.len(),
            0 <= top < gaps.len(),
            counts@[top] == highest,
            highest > 0,
            forall|gap: i64| is_most_common(gaps@, gap) <==> count(gaps@, gap) == highest,
            counts@.len() == gaps.len(),
            forall|j: int| 0 <= j < gaps.len() ==> counts@[j] == count(gaps@, gaps@[j]),
            is_increasing(most@),
            forall|gap: i64|
                most@.contains(gap) <==> exists|j: int|
                    0 <= j < i && gaps@[j] == gap && count(gaps@, gap) == highest,
        decreases gaps.len() - i,
    {
        let ghost before = most@;
        if counts[i] == highest {
            insert_increasing(&mut most, gaps[i]);
        }
        proof {
            assert forall|gap: i64|
                most@.contains(gap) <==> exists|j: int|
                    0 <= j < i + 1 && gaps@[j] == gap && count(gaps@, gap) == highest by {
                if before.contains(gap) {
                    let j = choose|j: int|
                        0 <= j < i && gaps@[j] == gap && count(gaps@, gap) == highest;
                    assert(0 <= j < i + 1 && gaps@[j] == gap && count(gaps@, gap) == highest);
                }
                if exists|j: int| 0 <= j < i + 1 && gaps@[j] == gap && count(gaps@, gap) == highest {
                    let j = choose|j: int|
                        0 <= j < i + 1 && gaps@[j] == gap && count(gaps@, gap) == highest;
                    if j < i {
                        assert(before.contains(gap));
                    }
                }
            }
        }
        i = i + 1;
    }
    proof {
        assert forall|gap: i64| most@.contains(gap) <==> is_most_common(gaps@, gap) by {
            lemma_count(gaps@, gap);
            if count(gaps@, gap) == highest {
                let k = choose|k: int| 0 <= k < gaps@.len() && gaps@[k] == gap;
                assert(0 <= k < gaps.len() && gaps@[k] == gap && count(gaps@, gap) == highest);
            }
        }
        assert(is_most_common(gaps@, gaps@[top]));
        assert(most@.contains(gaps@[top]));
    }
    if most.len() == 1 {
        let gap: i64 = most[0];
        proof {
            assert(most@.contains(gap));
            assert forall|other: i64| is_most_common(gaps@, other) implies other == gap by {
                assert(most@.contains(other));
                let k = choose|k: int| 0 <= k < most@.len() && most@[k] == other;
                assert(k == 0);
            }
        }
        Some(Ok(gap))
    } else {
        Some(Err(most))
    }
}

impl Camera {
    /// Creates a camera from a filesystem path.
    pub fn from_path(path: &str) -> (camera: Camera)
        ensures
            camera@ == path@,
    {
        Camera { path: path.to_owned() }
    }

    /// Returns the path of the directory of this camera.
    pub fn path(&self) -> (path: &str)
        ensures
            path@ == self@,
    {
        self.path.as_str()
    }

    /// Returns this camera's interval in seconds, as determined by its images
    /// in the order given: the most common time between an image and the next.
    pub fn interval(&self, images: &Vec<Image>) -> (r: Result<i64, IntervalError>)
        ensures
            match r {
                Ok(gap) => is_most_common(gaps(images.deep_view()), gap) && forall|other: i64|
                    is_most_common(gaps(images.deep_view()), other) ==> other == gap,
                Err(IntervalError::NoImages(camera)) => gaps(images.deep_view()).len() == 0
                    && camera@ == self@,
                Err(IntervalError::Ambiguous(most)) => most@.len() >= 2 && is_increasing(most@)
                    && forall|gap: i64|
                    most@.contains(gap) <==> is_most_common(gaps(images.deep_view()), gap),
            },
    {
        let list: Vec<i64> = gaps_between(images);
        match most_common(&list) {
            None => Err(IntervalError::NoImages(self.clone())),
            Some(Ok(gap)) => Ok(gap),
            Some(Err(most)) => Err(IntervalError::Ambiguous(most)),
        }
    }
}

/// An interval in the largest of hours, minutes and seconds that counts it whole.
#[derive(Clone, Copy, Debug, PartialEq, Eq, Structural)]
pub enum IntervalLabel {
    /// So many hours.
    Hours(i64),
    /// So many minutes, which are no whole hours.
    Minutes(i64),
    /// So many seconds, which are no whole minutes.
    Seconds(i64),
}

impl IntervalLabel {
    /// The label of an interval of so many seconds.
    pub open spec fn of(seconds: i64) -> IntervalLabel {
        if seconds % 3600 == 0 {
            IntervalLabel::Hours((seconds / 3600) as i64)
        } else if seconds % 60 == 0 {
            IntervalLabel::Minutes((seconds / 60) as i64)
        } else {
            IntervalLabel::Seconds(seconds)
        }
    }

    /// Labels an interval of so many seconds.
    pub fn new(seconds: i64) -> (label: IntervalLabel)
        ensures
            label == IntervalLabel::of(seconds),
    {
        if seconds >= 0 {
            if seconds % 3600 == 0 {
                IntervalLabel::Hours(seconds / 3600)
            } else if seconds % 60 == 0 {
                IntervalLabel::Minutes(seconds / 60)
            } else {
                IntervalLabel::Seconds(seconds)
            }
        } else {
            let positive: i128 = -(seconds as i128);
            assert(positive % 3600 == 0 <==> seconds % 3600 == 0) by (nonlinear_arith)
                requires
                    positive == -seconds,
            ;
            assert(positive % 60 == 0 <==> seconds % 60 == 0) by (nonlinear_arith)
                requires
                    positive == -seconds,
            ;
            if positive % 3600 == 0 {
                assert(seconds / 3600 == -(positive / 3600)) by (nonlinear_arith)
                    requires
                        positive == -seconds,
                        positive % 3600 == 0,
                ;
                IntervalLabel::Hours((-(positive / 3600)) as i64)
            } else if positive % 60 == 0 {
                assert(seconds / 60 == -(positive / 60)) by (nonlinear_arith)
                    requires
                        positive == -seconds,
                        positive % 60 == 0,
                ;
                IntervalLabel::Minutes((-(positive / 60)) as i64)
            } else {
                IntervalLabel::Seconds(seconds)
            }
        }
    }
}

/// Whether a camera is active at the time `now`: its latest image is newer
/// than two of its intervals. All times are in seconds.
pub fn is_active(now: i64, latest: i64, interval: i64) -> (active: bool)
    ensures
        active == (now - latest < 2 * interval),
{
    let age: i128 = now as i128 - latest as i128;
    age < 2 * (interval as i128)
}

} // verus!
