use vstd::prelude::*;

verus! {

/// An order as the contracts see it.
pub struct ProductView {
    pub id: int,
    pub amount: int,
    /// The stores that turned the order down, in the order in which they did.
    pub stores: Seq<Seq<char>>,
}

/// An order: `amount` of product `id`, and the ids of the stores that have
/// turned it down so far.
#[derive(Debug, Clone, PartialEq, Eq)]
pub struct Product {
    pub id: i32,
    pub amount: i32,
    pub stores: Vec<String>,
}

impl View for Product {
    type V = ProductView;

    open spec fn view(&self) -> ProductView {
        ProductView {
            id: self.id as int,
            amount: self.amount as int,
            stores: self.stores.deep_view(),
        }
    }
}

impl ProductView {
    /// The order after `store` turned it down.
    pub open spec fn turned_down_by(self, store: Seq<char>) -> ProductView {
        ProductView { id: self.id, amount: self.amount, stores: self.stores.push(store) }
    }
}

impl Product {
    /// Notes that `store` turned the order down.
    pub fn add_store(&mut self, store: String)
        ensures
            final(self)@ == old(self)@.turned_down_by(store@),
    {
        self.stores.push(store);
        assert(self.stores.deep_view() =~= old(self).stores.deep_view().push(store@));
    }

    /// The stores that have turned the order down, oldest first.
    pub fn get_stores(&self) -> (stores: Vec<String>)
        ensures
            stores.deep_view() == self@.stores,
    {
        let mut stores: Vec<String> = Vec::new();
        let mut i: usize = 0;
        while i < self.stores.len()
            invariant
                i <= self.stores.len(),
                stores.deep_view() == self.stores.deep_view().take(i as int),
            decreases self.stores.len() - i,
        {
            let store = self.stores[i].clone();
            let ghost copied = stores.deep_view();
            stores.push(store);
            assert(stores.deep_view() =~= copied.push(self.stores.deep_view()[i as int]));
            i += 1;
        }
        stores
    }
}

} // verus!
