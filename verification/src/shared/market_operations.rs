//! Laying out a fresh market account and growing it.

use vstd::prelude::*;

use crate::error::{
    DropsetError,
    DropsetResult,
};
use crate::state::free_stack::index_range;
use crate::state::market::{
    indices_valid,
    next_links,
    prev_links,
    ListKind,
    Market,
};
use crate::state::market_header::{
    MarketHeader,
    MARKET_HEADER_SIZE,
};
use crate::state::node::Node;
use crate::state::sector::{
    SectorIndex,
    NIL,
    SECTOR_SIZE,
};
use crate::state::transmutable::Transmutable;
use crate::state::Pubkey;

verus! {

/// The node in sector `i` of account data whose sectors start after the header.
pub open spec fn data_node(data: Seq<u8>, i: int) -> Node {
    Node::decode_spec(
        data.subrange(
            MARKET_HEADER_SIZE + i * SECTOR_SIZE,
            MARKET_HEADER_SIZE + i * SECTOR_SIZE + SECTOR_SIZE,
        ),
    )
}

/// What laying out a market account from its data gives: an error for data that cannot hold a
/// header or is not a whole number of sectors after it, else the market of the two mints with
/// every sector on the free stack, sector 0 on top.
pub open spec fn initialized_market(
    zeroed_market_account_data: Seq<u8>,
    base_mint: Pubkey,
    quote_mint: Pubkey,
    market_bump: u8,
    r: Result<Market, DropsetError>,
) -> bool {
    let data = zeroed_market_account_data;
    let n = (data.len() - MARKET_HEADER_SIZE) / (SECTOR_SIZE as int);
    &&& data.len() < MARKET_HEADER_SIZE ==> r == Err::<Market, DropsetError>(
        DropsetError::UnallocatedAccountData,
    )
    &&& data.len() >= MARKET_HEADER_SIZE && (data.len() - MARKET_HEADER_SIZE) % (
        SECTOR_SIZE as int) != 0 ==> r == Err::<Market, DropsetError>(DropsetError::UnalignedData)
    &&& data.len() >= MARKET_HEADER_SIZE && (data.len() - MARKET_HEADER_SIZE) % (
        SECTOR_SIZE as int) == 0 ==> (r matches Ok(m) && {
        &&& m.wf()
        &&& m.all_sectors_accounted()
        &&& m.header == (MarketHeader {
            free_stack_top: if n > 0 {
                0
            } else {
                NIL
            },
            num_free_sectors: n as u32,
            ..MarketHeader::init_spec(market_bump, base_mint, quote_mint)
        })
        &&& m.sectors@.len() == n
        &&& m.free@ == index_range(0, n as SectorIndex)
        &&& m.seats@.len() == 0 && m.bids@.len() == 0 && m.asks@.len() == 0
        &&& forall|i: int|
            0 <= i < n ==> #[trigger] m.sectors@[i] == (Node {
                next: if i + 1 < n {
                    (i + 1) as SectorIndex
                } else {
                    NIL
                },
                ..data_node(data, i)
            })
    })
}

/// Lays out a freshly created market account: the header of a new market for the two mints and
/// every sector pushed onto the free stack, sector 0 on top. Fails with `UnallocatedAccountData`
/// when the data cannot hold the header and with `UnalignedData` when the bytes after the header
/// are not a whole number of sectors.
///
/// The account is expected to be fresh, zeroed space: sector payloads and `prev` links are taken
/// as they are.
pub fn initialize_market_account_data(
    zeroed_market_account_data: &[u8],
    base_mint: &Pubkey,
    quote_mint: &Pubkey,
    market_bump: u8,
) -> (r: Result<Market, DropsetError>)
    requires
        zeroed_market_account_data@.len() < NIL,
    ensures
        initialized_market(
            zeroed_market_account_data@,
            *base_mint,
            *quote_mint,
            market_bump,
            r,
        ),
{
    let account_data_len = zeroed_market_account_data.len();
    if account_data_len < MARKET_HEADER_SIZE {
        return Err(DropsetError::UnallocatedAccountData);
    }
    let sector_bytes = account_data_len - MARKET_HEADER_SIZE;
    if sector_bytes % SECTOR_SIZE != 0 {
        return Err(DropsetError::UnalignedData);
    }
    let parsed = Market::from_bytes(zeroed_market_account_data);
    let num_sectors = sector_bytes / SECTOR_SIZE;
    let mut market = Market {
        header: MarketHeader::init(market_bump, base_mint, quote_mint),
        sectors: parsed.sectors,
        free: Ghost(Seq::empty()),
        seats: Ghost(Seq::empty()),
        bids: Ghost(Seq::empty()),
        asks: Ghost(Seq::empty()),
    };
    let ghost m0 = market;
    proof {
        assert(indices_valid(Seq::<SectorIndex>::empty(), m0.sectors@.len()));
        assert(next_links(Seq::<SectorIndex>::empty(), m0.sectors@));
        assert(prev_links(Seq::<SectorIndex>::empty(), m0.sectors@));
        assert(m0.list_wf(ListKind::Seats));
        assert(m0.list_wf(ListKind::Bids));
        assert(m0.list_wf(ListKind::Asks));
        assert(m0.wf());
    }
    if num_sectors > 0 {
        let _ = market.convert_zeroed_bytes_to_free_nodes(0, num_sectors as u32);
    }
    proof {
        if num_sectors == 0 {
            assert(market.free@ =~= index_range(0, 0));
        } else {
            assert(market.free@ =~= index_range(0, num_sectors as SectorIndex));
        }
        assert forall|i: SectorIndex| i < market.sectors@.len() implies market.in_use(i) by {
            assert(market.free@[i as int] == i);
        }
    }
    Ok(market)
}

impl Market {
    /// Appends one zeroed sector, which is on no list and not on the free stack.
    fn push_zeroed_sector(&mut self)
        requires
            old(self).wf(),
            old(self).sectors@.len() + 1 < NIL,
        ensures
            final(self).wf(),
            final(self).sectors@ == old(self).sectors@.push(Node::zeroed_spec()),
            final(self).header == old(self).header,
            final(self).free == old(self).free,
            final(self).seats == old(self).seats,
            final(self).bids == old(self).bids,
            final(self).asks == old(self).asks,
    {
        let ghost m0 = *self;
        self.sectors.push(Node::zeroed());
        proof {
            let n0 = m0.sectors@;
            let n1 = self.sectors@;
            assert forall|s: Seq<SectorIndex>| indices_valid(s, n0.len()) implies indices_valid(
                s,
                n1.len(),
            ) && (next_links(s, n0) ==> next_links(s, n1)) && (prev_links(s, n0) ==> prev_links(
                s,
                n1,
            )) by {
                assert forall|k: int| 0 <= k < s.len() implies #[trigger] n1[s[k] as int] == n0[s[k] as int] by {}
            }
            assert(m0.list_wf(ListKind::Seats));
            assert(m0.list_wf(ListKind::Bids));
            assert(m0.list_wf(ListKind::Asks));
        }
    }

    /// Grows the market by `num_sectors` fresh, zeroed sectors and pushes them onto the free
    /// stack, the first new sector on top. Fails with `InvalidNonZeroInteger`, changing nothing,
    /// when `num_sectors` is zero.
    pub fn resize(&mut self, num_sectors: u16) -> (r: DropsetResult)
        requires
            old(self).wf(),
            old(self).sectors@.len() + num_sectors < NIL,
        ensures
            final(self).wf(),
            num_sectors == 0 ==> r == Err::<(), DropsetError>(DropsetError::InvalidNonZeroInteger)
                && final(self).same_as(*old(self)),
            num_sectors > 0 ==> {
                let n = old(self).sectors@.len();
                let m = n + num_sectors;
                &&& r is Ok
                &&& final(self).sectors@.len() == m
                &&& final(self).free@ == index_range(n as SectorIndex, m as SectorIndex) + old(
                    self,
                ).free@
                &&& final(self).seats == old(self).seats
                &&& final(self).bids == old(self).bids
                &&& final(self).asks == old(self).asks
                &&& forall|i: int|
                    0 <= i < n ==> #[trigger] final(self).sectors@[i] == old(self).sectors@[i]
                &&& forall|i: int|
                    n <= i < m ==> #[trigger] final(self).sectors@[i] == (Node {
                        next: if i + 1 < m {
                            (i + 1) as SectorIndex
                        } else {
                            old(self).header.free_stack_top
                        },
                        ..Node::zeroed_spec()
                    })
                &&& final(self).header == (MarketHeader {
                    free_stack_top: n as SectorIndex,
                    num_free_sectors: if old(self).header.num_free_sectors + num_sectors
                        > u32::MAX {
                        u32::MAX
                    } else {
                        (old(self).header.num_free_sectors + num_sectors) as u32
                    },
                    ..old(self).header
                })
                &&& old(self).all_sectors_accounted() ==> final(self).all_sectors_accounted()
            },
    {
        if num_sectors == 0 {
            return Err(DropsetError::InvalidNonZeroInteger);
        }
        let ghost m0 = *self;
        let curr_n_sectors = self.sectors.len();
        let new_n_sectors = curr_n_sectors + num_sectors as usize;
        let mut i: usize = curr_n_sectors;
        while i < new_n_sectors
            invariant
                curr_n_sectors == m0.sectors@.len(),
                new_n_sectors == curr_n_sectors + num_sectors,
                new_n_sectors < NIL,
                curr_n_sectors <= i <= new_n_sectors,
                self.wf(),
                self.sectors@.len() == i,
                forall|j: int| 0 <= j < curr_n_sectors ==> #[trigger] self.sectors@[j] == m0.sectors@[j],
                forall|j: int| curr_n_sectors <= j < i ==> #[trigger] self.sectors@[j] == Node::zeroed_spec(),
                self.header == m0.header,
                self.free == m0.free,
                self.seats == m0.seats,
                self.bids == m0.bids,
                self.asks == m0.asks,
            decreases new_n_sectors - i,
        {
            self.push_zeroed_sector();
            i = i + 1;
        }
        let ghost m1 = *self;
        proof {
            assert forall|x: SectorIndex| curr_n_sectors <= x < new_n_sectors implies !self.in_use(x) by {
                if m0.free@.contains(x) {
                    let k = choose|k: int| 0 <= k < m0.free@.len() && m0.free@[k] == x;
                }
                if m0.seats@.contains(x) {
                    let k = choose|k: int| 0 <= k < m0.seats@.len() && m0.seats@[k] == x;
                    assert(m0.list_wf(ListKind::Seats));
                }
                if m0.bids@.contains(x) {
                    let k = choose|k: int| 0 <= k < m0.bids@.len() && m0.bids@[k] == x;
                    assert(m0.list_wf(ListKind::Bids));
                }
                if m0.asks@.contains(x) {
                    let k = choose|k: int| 0 <= k < m0.asks@.len() && m0.asks@[k] == x;
                    assert(m0.list_wf(ListKind::Asks));
                }
            }
        }
        let _ = self.convert_zeroed_bytes_to_free_nodes(
            curr_n_sectors as u32,
            new_n_sectors as u32,
        );
        proof {
            if m0.all_sectors_accounted() {
                assert forall|x: SectorIndex| x < self.sectors@.len() implies self.in_use(x) by {
                    if x < curr_n_sectors {
                        assert(m0.in_use(x));
                        if m0.free@.contains(x) {
                            let k = choose|k: int| 0 <= k < m0.free@.len() && m0.free@[k] == x;
                            assert(self.free@[k + num_sectors] == x);
                        }
                    } else {
                        assert(self.free@[x - curr_n_sectors] == x);
                    }
                }
            }
        }
        Ok(())
    }
}

} // verus!
