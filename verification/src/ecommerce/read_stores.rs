use crate::catalog::{csv_records, read_records};
use vstd::prelude::*;

verus! {

/// One store of the directory: its id and the address at which it listens.
#[derive(Debug, Clone, PartialEq, Eq)]
pub struct StoreEntry {
    pub id: String,
    pub address: String,
}

/// A store of the directory as the contracts see it.
pub struct StoreEntryView {
    pub id: Seq<char>,
    pub address: Seq<char>,
}

impl View for StoreEntry {
    type V = StoreEntryView;

    open spec fn view(&self) -> StoreEntryView {
        StoreEntryView { id: self.id@, address: self.address@ }
    }
}

/// Why the stores file could not be read.
#[derive(Debug)]
pub enum ReadError {
    /// The text is not in comma-separated records: the error that the `csv`
    /// reader gave.
    Csv(csv::Error),
    /// The record `record`, counted from zero after the header, has fewer
    /// than two fields.
    MissingField { record: usize },
}

/// The directory that `entries` hold.
pub open spec fn directory_view(entries: Seq<StoreEntry>) -> Seq<StoreEntryView> {
    entries.map_values(|entry: StoreEntry| entry@)
}

/// The ids of the stores of `directory`, in its order.
pub open spec fn ids_of(directory: Seq<StoreEntryView>) -> Seq<Seq<char>> {
    directory.map_values(|entry: StoreEntryView| entry.id)
}

/// The directory after the store `id` was entered with `address`: a store
/// that is new comes last, one that the directory holds keeps its place and
/// gets the new address.
pub open spec fn entered(directory: Seq<StoreEntryView>, id: Seq<char>, address: Seq<char>) -> Seq<
    StoreEntryView,
> {
    match ids_of(directory).index_of_first(id) {
        Some(place) => directory.update(place, StoreEntryView { id, address }),
        None => directory.push(StoreEntryView { id, address }),
    }
}

/// The directory that `records` make, each entered in its turn with its first
/// field as the id and its second as the address.
pub open spec fn directory_of(records: Seq<Seq<Seq<char>>>) -> Seq<StoreEntryView>
    decreases records.len(),
{
    if records.len() == 0 {
        Seq::empty()
    } else {
        entered(directory_of(records.drop_last()), records.last()[0], records.last()[1])
    }
}

/// No store is twice in a directory made of records.
pub proof fn lemma_directory_ids_distinct(records: Seq<Seq<Seq<char>>>)
    ensures
        ids_of(directory_of(records)).no_duplicates(),
    decreases records.len(),
{
    if records.len() > 0 {
        let before = directory_of(records.drop_last());
        let id = records.last()[0];
        let address = records.last()[1];
        lemma_directory_ids_distinct(records.drop_last());
        ids_of(before).index_of_first_ensures(id);
        match ids_of(before).index_of_first(id) {
            Some(place) => {
                assert(ids_of(entered(before, id, address)) =~= ids_of(before));
            },
            None => {
                assert(ids_of(entered(before, id, address)) =~= ids_of(before).push(id));
            },
        }
    }
}

/// Enters the store `id` with `address` into `directory`.
fn enter(directory: &mut Vec<StoreEntry>, id: String, address: String)
    ensures
        directory_view(final(directory)@) == entered(directory_view(old(directory)@), id@, address@),
{
    let ghost before = directory_view(directory@);
    let mut place: usize = 0;
    while place < directory.len()
        invariant
            place <= directory.len(),
            directory@ == old(directory)@,
            before == directory_view(directory@),
            forall|earlier: int| 0 <= earlier < place ==> ids_of(before)[earlier] != id@,
        decreases directory.len() - place,
    {
        if directory[place].id == id {
            assert(ids_of(before)[place as int] == id@);
            proof {
                ids_of(before).index_of_first_ensures(id@);
            }
            directory.set(place, StoreEntry { id, address });
            return;
        }
        place += 1;
    }
    proof {
        ids_of(before).index_of_first_ensures(id@);
    }
    directory.push(StoreEntry { id, address });
}

/// The directory of stores that `records` make: of each record the first
/// field is a store's id and the second its address. A store that comes again
/// keeps its place and gets the later address. The first record with fewer
/// than two fields fails the whole directory.
pub fn stores_from_records(records: &Vec<Vec<String>>) -> (stores: Result<
    Vec<StoreEntry>,
    ReadError,
>)
    ensures
        match stores {
            Ok(entries) => {
                &&& forall|i: int| 0 <= i < records.len() ==> (#[trigger] records[i]).len() >= 2
                &&& directory_view(entries@) == directory_of(records.deep_view())
                &&& ids_of(directory_view(entries@)).no_duplicates()
            },
            Err(ReadError::MissingField { record }) => {
                &&& record < records.len()
                &&& records[record as int].len() < 2
                &&& forall|i: int| 0 <= i < record ==> (#[trigger] records[i]).len() >= 2
            },
            Err(ReadError::Csv(_)) => false,
        },
{
    let mut directory: Vec<StoreEntry> = Vec::new();
    let mut i: usize = 0;
    while i < records.len()
        invariant
            i <= records.len(),
            forall|earlier: int| 0 <= earlier < i ==> (#[trigger] records[earlier]).len() >= 2,
            directory_view(directory@) == directory_of(records.deep_view().take(i as int)),
        decreases records.len() - i,
    {
        let record = &records[i];
        if record.len() < 2 {
            return Err(ReadError::MissingField { record: i });
        }
        let id = record[0].clone();
        let address = record[1].clone();
        enter(&mut directory, id, address);
        assert(records.deep_view().take(i + 1).drop_last() =~= records.deep_view().take(i as int));
        i += 1;
    }
    proof {
        assert(records.deep_view().take(records.len() as int) =~= records.deep_view());
        lemma_directory_ids_distinct(records.deep_view());
    }
    Ok(directory)
}

/// Reads the stores file, given by its bytes: comma-separated records under a
/// header line, of each record the first field a store's id and the second
/// its address. Records are taken in their order; a record with fewer than
/// two fields, or text that is not in such records, fails the whole file.
pub fn read_stores(data: &Vec<u8>) -> (stores: Result<Vec<StoreEntry>, ReadError>)
    ensures
        match stores {
            Ok(entries) => {
                &&& !csv_records(data@).1
                &&& forall|i: int|
                    0 <= i < csv_records(data@).0.len() ==> (#[trigger] csv_records(
                        data@,
                    ).0[i]).len() >= 2
                &&& directory_view(entries@) == directory_of(csv_records(data@).0)
                &&& ids_of(directory_view(entries@)).no_duplicates()
            },
            Err(ReadError::MissingField { record }) => {
                &&& record < csv_records(data@).0.len()
                &&& csv_records(data@).0[record as int].len() < 2
                &&& forall|i: int|
                    0 <= i < record ==> (#[trigger] csv_records(data@).0[i]).len() >= 2
            },
            Err(ReadError::Csv(_)) => {
                &&& csv_records(data@).1
                &&& forall|i: int|
                    0 <= i < csv_records(data@).0.len() ==> (#[trigger] csv_records(
                        data@,
                    ).0[i]).len() >= 2
            },
        },
{
    let (records, failure) = read_records(data);
    match stores_from_records(&records) {
        Ok(entries) => match failure {
            Some(error) => Err(ReadError::Csv(error)),
            None => Ok(entries),
        },
        Err(error) => Err(error),
    }
}

/// The ids of the stores of `directory`, in its order.
pub fn store_ids(directory: &Vec<StoreEntry>) -> (ids: Vec<String>)
    ensures
        ids.deep_view() == ids_of(directory_view(directory@)),
{
    let mut ids: Vec<String> = Vec::new();
    let mut i: usize = 0;
    while i < directory.len()
        invariant
            i <= directory.len(),
            ids.deep_view() == ids_of(directory_view(directory@)).take(i as int),
        decreases directory.len() - i,
    {
        let id = directory[i].id.clone();
        let ghost copied = ids.deep_view();
        ids.push(id);
        assert(ids.deep_view() =~= copied.push(id@));
        i += 1;
    }
    assert(ids_of(directory_view(directory@)).take(directory.len() as int) =~= ids_of(
        directory_view(directory@),
    ));
    ids
}

} // verus!
