use extrema::extrema_of;
use extrema::Extrema;
use std::cell::Cell;
use std::collections::{BTreeSet, HashSet};

#[test]
fn empty_input_has_no_extrema() {
    let xs: Vec<i32> = Vec::new();
    assert_eq!(xs.extrema(), None);
    let ys: Vec<i32> = Vec::new();
    assert_eq!((&ys).extrema(), None);
    assert_eq!(ys[..].extrema(), None);
    assert_eq!(extrema_of(ys.iter()), None);
}

#[test]
fn singleton_input_has_no_extrema() {
    assert_eq!(vec![7].extrema(), None);
    let ys = vec![7];
    assert_eq!((&ys).extrema(), None);
    assert_eq!(ys[..].extrema(), None);
    assert_eq!(extrema_of(ys.into_iter()), None);
}

#[test]
fn two_elements_ascending() {
    assert_eq!(vec![0, 1].extrema(), Some((0, 1)));
}

#[test]
fn two_elements_descending_are_swapped() {
    assert_eq!(vec![3, 1].extrema(), Some((1, 3)));
}

#[test]
fn two_equal_elements() {
    assert_eq!(vec![4, 4].extrema(), Some((4, 4)));
}

#[test]
fn general_case() {
    let xs = vec![0, 1, 2, 3];
    assert_eq!(xs.extrema(), Some((0, 3)));
}

#[test]
fn duplicates_at_the_boundary() {
    assert_eq!(vec![5, 1, 5, 1, 3].extrema(), Some((1, 5)));
}

#[test]
fn all_elements_equal() {
    assert_eq!(vec![9, 9, 9, 9].extrema(), Some((9, 9)));
}

#[test]
fn descending_run_lowers_the_minimum_each_step() {
    assert_eq!(vec![5, 4, 3, 2, 1].extrema(), Some((1, 5)));
}

#[test]
fn ascending_run_raises_the_maximum_each_step() {
    assert_eq!(vec![1, 2, 3, 4, 5].extrema(), Some((1, 5)));
}

#[test]
fn extremes_in_the_middle() {
    assert_eq!(vec![0, -7, 12, 3, -2].extrema(), Some((-7, 12)));
}

#[test]
fn elements_strictly_inside_change_nothing() {
    assert_eq!(vec![1, 10, 5, 6, 4, 9, 2].extrema(), Some((1, 10)));
}

#[test]
fn signed_limits() {
    assert_eq!(
        vec![0, i64::MAX, -1, i64::MIN, 1].extrema(),
        Some((i64::MIN, i64::MAX))
    );
}

#[test]
fn borrowed_vector_yields_references() {
    let xs = vec![0, 1, 2, 3];
    let minmax = (&xs).extrema();
    assert_eq!(minmax, Some((&0, &3)));
    assert_eq!(xs.len(), 4);
}

#[test]
fn slice_yields_references() {
    let xs = vec![0, 1, 2, 3];
    assert_eq!(xs[..].extrema(), Some((&0, &3)));
    assert_eq!(xs[1..3].extrema(), Some((&1, &2)));
    assert_eq!(xs[2..3].extrema(), None);
    let arr = [8, 6, 7];
    assert_eq!(arr[..].extrema(), Some((&6, &8)));
}

#[test]
fn iterator_over_a_vector() {
    let xs = vec![0, 1, 2, 3];
    assert_eq!(extrema_of(xs.iter()), Some((&0, &3)));
    assert_eq!(extrema_of(xs.into_iter()), Some((0, 3)));
}

#[test]
fn owned_elements_are_moved_out() {
    let words = vec![
        String::from("pear"),
        String::from("apple"),
        String::from("quince"),
        String::from("fig"),
    ];
    let (min, max): (String, String) = words.extrema().unwrap();
    assert_eq!(min, "apple");
    assert_eq!(max, "quince");
}

#[test]
fn large_sequence_from_a_range() {
    assert_eq!(extrema_of(1..=300), Some((1, 300)));
    let xs: Vec<u32> = (1..=300).collect();
    assert_eq!(xs.len(), 300);
    assert_eq!(xs.extrema(), Some((1, 300)));
}

#[test]
fn half_open_range() {
    assert_eq!(extrema_of(1..300), Some((1, 299)));
    assert_eq!(extrema_of(5..6), None);
    assert_eq!(extrema_of(5..5), None);
}

#[test]
fn hash_set_in_any_order() {
    let my_set: HashSet<i32> = (1..=300).collect();
    let (min, max) = extrema_of(my_set.iter()).unwrap();
    assert_eq!((min, max), (&1, &300));
}

#[test]
fn ordered_set() {
    let set: BTreeSet<char> = "extrema".chars().collect();
    assert_eq!(extrema_of(set.into_iter()), Some(('a', 'x')));
}

#[test]
fn tuples_compare_lexicographically() {
    let xs = vec![(2, 'b'), (1, 'z'), (2, 'a'), (1, 'y')];
    assert_eq!(xs.extrema(), Some(((1, 'y'), (2, 'b'))));
}

#[test]
fn single_pass_iterator_is_consumed_once() {
    let mut drawn = 0;
    let source = [4, 8, 15, 16, 23, 42].iter().inspect(|_| drawn += 1);
    assert_eq!(extrema_of(source), Some((&4, &42)));
    assert_eq!(drawn, 6);
}

#[test]
fn cursor_is_left_exhausted() {
    let xs = vec![3, 9, 4];
    let mut cursor = xs.iter();
    assert_eq!(extrema_of(&mut cursor), Some((&3, &9)));
    assert_eq!(cursor.next(), None);

    let mut short = xs[..1].iter();
    assert_eq!(extrema_of(&mut short), None);
    assert_eq!(short.next(), None);
}

struct Counted<'a> {
    value: i32,
    comparisons: &'a Cell<usize>,
}

impl<'a> PartialEq for Counted<'a> {
    fn eq(&self, other: &Counted<'a>) -> bool {
        self.value == other.value
    }
}

impl<'a> Eq for Counted<'a> {}

impl<'a> PartialOrd for Counted<'a> {
    fn partial_cmp(&self, other: &Counted<'a>) -> Option<std::cmp::Ordering> {
        Some(self.cmp(other))
    }
}

impl<'a> Ord for Counted<'a> {
    fn cmp(&self, other: &Counted<'a>) -> std::cmp::Ordering {
        self.comparisons.set(self.comparisons.get() + 1);
        self.value.cmp(&other.value)
    }
}

fn comparisons_for(values: &[i32]) -> usize {
    let comparisons = Cell::new(0);
    let items: Vec<Counted> = values
        .iter()
        .map(|v| Counted { value: *v, comparisons: &comparisons })
        .collect();
    let found = items.extrema().map(|(lo, hi)| (lo.value, hi.value));
    let least = values.iter().min().copied();
    let greatest = values.iter().max().copied();
    assert_eq!(found.map(|p| p.0), if values.len() < 2 { None } else { least });
    assert_eq!(found.map(|p| p.1), if values.len() < 2 { None } else { greatest });
    comparisons.get()
}

#[test]
fn at_most_two_comparisons_per_further_element() {
    assert_eq!(comparisons_for(&[]), 0);
    assert_eq!(comparisons_for(&[1]), 0);
    assert_eq!(comparisons_for(&[1, 2]), 1);
    assert_eq!(comparisons_for(&[2, 1]), 1);
    // A new minimum is settled by one comparison.
    assert_eq!(comparisons_for(&[5, 4, 3, 2, 1]), 1 + 3);
    // Anything else takes two.
    assert_eq!(comparisons_for(&[1, 2, 3, 4, 5]), 1 + 2 * 3);
    assert_eq!(comparisons_for(&[1, 9, 5, 5, 5]), 1 + 2 * 3);
    assert_eq!(comparisons_for(&[4, 6, 5, 3, 7, 5]), 1 + 2 + 1 + 2 + 2);
}
