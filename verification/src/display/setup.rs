use vstd::prelude::*;

use crate::algorithms::grid::GridMap;
use crate::algorithms::GridBlock;
use crate::algorithms::Point;

verus! {

/// Which kind of cell the map builder is placing.
pub enum MapBuilderMode {
    Obstacle,
    Start,
    End,
}

/// The obstacle density tier: it fixes the rectangle side range and the
/// per-cell conversion chance.
pub enum MapCrowding {
    Low,
    Medium,
    High,
}

impl MapCrowding {
    /// The smallest rectangle side the tier draws.
    pub fn min_obstacle_size(&self) -> (r: u16)
        ensures
            r == match self {
                MapCrowding::Low => 1u16,
                MapCrowding::Medium => 2u16,
                MapCrowding::High => 3u16,
            },
    {
        match self {
            MapCrowding::Low => 1,
            MapCrowding::Medium => 2,
            MapCrowding::High => 3,
        }
    }

    /// The largest rectangle side the tier draws.
    pub fn max_obstacle_size(&self) -> (r: u16)
        ensures
            r == match self {
                MapCrowding::Low => 2u16,
                MapCrowding::Medium => 3u16,
                MapCrowding::High => 4u16,
            },
    {
        match self {
            MapCrowding::Low => 2,
            MapCrowding::Medium => 3,
            MapCrowding::High => 4,
        }
    }

    /// The tier's chance of converting a free cell to an obstacle, in
    /// percent.
    pub fn convert_chance(&self) -> (r: u16)
        ensures
            r == match self {
                MapCrowding::Low => 10u16,
                MapCrowding::Medium => 20u16,
                MapCrowding::High => 35u16,
            },
    {
        match self {
            MapCrowding::Low => 10,
            MapCrowding::Medium => 20,
            MapCrowding::High => 35,
        }
    }
}

impl GridMap {
    /// Populates the grid with obstacles in two rounds. First, up to five
    /// rectangles: each is tried at up to ten random positions with random
    /// sides in the tier's range, kept only when its bounding box fits
    /// in-grid, and only its interior — the border ring excluded — is
    /// marked. Second, a sweep converts each remaining free cell
    /// independently with the tier's percent chance. Cells are only ever
    /// turned into obstacles, never back, and the bounded retries end the
    /// generation on any accepted grid. Start and End placement comes
    /// after generation, so no placed endpoint is ever overwritten here.
    pub fn generate_obstacles(&mut self, crowding: MapCrowding)
        requires
            old(self).wf(),
        ensures
            final(self).wf(),
            final(self).same_frame(*old(self)),
            forall|p: Point|
                old(self).in_bounds(p) ==> #[trigger] final(self).block_at(p)
                    == GridBlock::Obstacle || final(self).block_at(p) == old(self).block_at(p),
    {
        let ghost g0 = *self;
        let min = crowding.min_obstacle_size();
        let max = crowding.max_obstacle_size();
        let diff = max - min;
        for _attempt in 0..5u16
            invariant
                self.wf(),
                self.same_frame(g0),
                g0.wf(),
                1 <= min <= 3,
                diff == 1,
                forall|p: Point|
                    g0.in_bounds(p) ==> #[trigger] self.block_at(p) == GridBlock::Obstacle
                        || self.block_at(p) == g0.block_at(p),
        {
            let mut tries: u16 = 0;
            let mut placed = false;
            while tries < 10 && !placed
                invariant
                    self.wf(),
                    self.same_frame(g0),
                    g0.wf(),
                    1 <= min <= 3,
                    diff == 1,
                    tries <= 10,
                    forall|p: Point|
                        g0.in_bounds(p) ==> #[trigger] self.block_at(p) == GridBlock::Obstacle
                            || self.block_at(p) == g0.block_at(p),
                decreases 10 - tries,
            {
                let x1 = crate::rng::random_below(self.size.width);
                let y1 = crate::rng::random_below(self.size.height);
                let x2 = x1 + min + crate::rng::random_below(diff);
                let y2 = y1 + min + crate::rng::random_below(diff);
                if x2 < self.size.width && y2 < self.size.height {
                    let mut x = x1 + 1;
                    while x < x2
                        invariant
                            self.wf(),
                            self.same_frame(g0),
                            g0.wf(),
                            x2 < self.size.width,
                            y1 < y2 < self.size.height,
                            forall|p: Point|
                                g0.in_bounds(p) ==> #[trigger] self.block_at(p)
                                    == GridBlock::Obstacle || self.block_at(p) == g0.block_at(p),
                        decreases x2 - x,
                    {
                        let mut yy = y1 + 1;
                        while yy < y2
                            invariant
                                self.wf(),
                                self.same_frame(g0),
                                g0.wf(),
                                x < x2 < self.size.width,
                                y2 < self.size.height,
                                forall|p: Point|
                                    g0.in_bounds(p) ==> #[trigger] self.block_at(p)
                                        == GridBlock::Obstacle || self.block_at(p) == g0.block_at(
                                        p,
                                    ),
                            decreases y2 - yy,
                        {
                            self.put(&Point::new(x, yy), GridBlock::Obstacle);
                            yy = yy + 1;
                        }
                        x = x + 1;
                    }
                    placed = true;
                }
                tries = tries + 1;
            }
        }
        let chance = crowding.convert_chance();
        let width = self.size.width;
        let height = self.size.height;
        for i in 0..width
            invariant
                self.wf(),
                self.same_frame(g0),
                g0.wf(),
                width == self.size.width,
                height == self.size.height,
                chance <= 35,
                forall|p: Point|
                    g0.in_bounds(p) ==> #[trigger] self.block_at(p) == GridBlock::Obstacle
                        || self.block_at(p) == g0.block_at(p),
        {
            for j in 0..height
                invariant
                    self.wf(),
                    self.same_frame(g0),
                    g0.wf(),
                    i < width == self.size.width,
                    height == self.size.height,
                    chance <= 35,
                    forall|p: Point|
                        g0.in_bounds(p) ==> #[trigger] self.block_at(p) == GridBlock::Obstacle
                            || self.block_at(p) == g0.block_at(p),
            {
                let p = Point::new(i, j);
                let already = match self.get_block(&p) {
                    Ok(b) => b == GridBlock::Obstacle,
                    Err(_) => {
                        proof {
                            assert(false);
                        }
                        true
                    },
                };
                if !already {
                    if crate::rng::random_below(100) < chance {
                        self.put(&p, GridBlock::Obstacle);
                    }
                }
            }
        }
    }
}

} // verus!
