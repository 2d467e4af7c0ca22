//! The settings of the periodic refresh of the element sets.

use vstd::prelude::*;

verus! {

/// Where the element sets come from, how often, and for which satellites.
#[derive(Debug, PartialEq, Eq)]
pub struct FetchingSettings {
    pub tle_urls: Vec<String>,
    pub delay_seconds: u64,
    pub do_track_everything: bool,
    pub satellites_to_track: Vec<String>,
}

/// `name` stands in the list.
pub open spec fn is_listed(list: Seq<String>, name: Seq<char>) -> bool {
    exists|index: int| 0 <= index < list.len() && (#[trigger] list[index])@ == name
}

/// The record with that title is taken over: it has a name, and the name is
/// listed.
pub open spec fn is_selected(list: Seq<String>, title: Seq<char>) -> bool {
    title.len() > 0 && is_listed(list, title)
}

/// The numbers of the records among the first `n` that are taken over, in
/// their order.
pub open spec fn selected_within(list: Seq<String>, titles: Seq<String>, n: int) -> Seq<usize>
    decreases n,
{
    if n <= 0 {
        Seq::empty()
    } else {
        let earlier = selected_within(list, titles, n - 1);
        if is_selected(list, titles[n - 1]@) {
            earlier.push((n - 1) as usize)
        } else {
            earlier
        }
    }
}

/// The satellites of a freshly loaded catalogue: the titles of its records
/// without the empty ones.  `titles` holds the title line of each record,
/// stripped of surrounding blanks.
pub fn names_to_track(titles: &Vec<String>) -> (names: Vec<String>)
    ensures
        names@ == titles@.filter(|title: String| title@.len() > 0),
{
    let mut names: Vec<String> = Vec::new();
    let mut k: usize = 0;
    while k < titles.len()
        invariant
            k <= titles.len(),
            names@ == titles@.take(k as int).filter(|title: String| title@.len() > 0),
        decreases titles.len() - k,
    {
        proof {
            let named = |title: String| title@.len() > 0;
            assert(titles@.take(k + 1) == titles@.take(k as int).push(titles@[k as int]));
            titles@.take(k as int).lemma_filter_push(titles@[k as int], named);
        }
        if !titles[k].as_str().is_empty() {
            names.push(titles[k].clone());
        }
        k = k + 1;
    }
    assert(titles@.take(titles.len() as int) == titles@);
    names
}

impl FetchingSettings {
    /// Whether the satellite of that name is tracked.
    pub fn tracks(&self, satellite_name: &str) -> (r: bool)
        ensures
            r == is_listed(self.satellites_to_track@, satellite_name@),
    {
        let wanted: String = satellite_name.to_owned();
        let mut index: usize = 0;
        while index < self.satellites_to_track.len()
            invariant
                index <= self.satellites_to_track.len(),
                wanted@ == satellite_name@,
                forall|earlier: int|
                    0 <= earlier < index ==> (#[trigger] self.satellites_to_track[earlier])@
                        != satellite_name@,
            decreases self.satellites_to_track.len() - index,
        {
            if self.satellites_to_track[index] == wanted {
                return true;
            }
            index = index + 1;
        }
        false
    }

    /// The numbers of the records of a catalogue that are kept: those whose
    /// title is the name of a tracked satellite.  `titles` holds the title
    /// line of each record, stripped of surrounding blanks.
    pub fn tracked_records(&self, titles: &Vec<String>) -> (records: Vec<usize>)
        ensures
            records@ == selected_within(
                self.satellites_to_track@,
                titles@,
                titles.len() as int,
            ),
    {
        let mut records: Vec<usize> = Vec::new();
        let mut k: usize = 0;
        while k < titles.len()
            invariant
                k <= titles.len(),
                records@ == selected_within(self.satellites_to_track@, titles@, k as int),
            decreases titles.len() - k,
        {
            if !titles[k].as_str().is_empty() && self.tracks(titles[k].as_str()) {
                records.push(k);
            }
            k = k + 1;
        }
        records
    }

    /// Whether every satellite of the list is tracked.
    pub fn tracks_all(&self, satellite_names: &Vec<String>) -> (r: bool)
        ensures
            r == forall|k: int|
                0 <= k < satellite_names.len() ==> is_listed(
                    self.satellites_to_track@,
                    (#[trigger] satellite_names[k])@,
                ),
    {
        let mut k: usize = 0;
        while k < satellite_names.len()
            invariant
                k <= satellite_names.len(),
                forall|j: int|
                    0 <= j < k ==> is_listed(
                        self.satellites_to_track@,
                        (#[trigger] satellite_names[j])@,
                    ),
            decreases satellite_names.len() - k,
        {
            if !self.tracks(satellite_names[k].as_str()) {
                return false;
            }
            k = k + 1;
        }
        true
    }
}

} // verus!
