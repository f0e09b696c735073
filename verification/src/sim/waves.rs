//! The wave table: which enemies each wave sends, how many, and how far apart.
use vstd::prelude::*;

verus! {

/// One group of a wave. The interval between spawns is in milliseconds.
#[derive(Debug, Clone, Copy)]
pub struct WaveSpawn {
    pub type_id: &'static str,
    pub count: u32,
    pub interval_milli: u32,
}

/// One wave: its groups, in order.
pub struct WaveDef {
    pub spawns: Vec<WaveSpawn>,
}

impl View for WaveDef {
    type V = Seq<WaveSpawn>;

    open spec fn view(&self) -> Seq<WaveSpawn> {
        self.spawns@
    }
}

pub open spec fn spec_waves() -> Seq<Seq<WaveSpawn>> {
    seq![
        seq![WaveSpawn { type_id: "grunt", count: 3, interval_milli: 1200 }],
        seq![
            WaveSpawn { type_id: "grunt", count: 3, interval_milli: 1000 },
            WaveSpawn { type_id: "climber", count: 2, interval_milli: 1400 },
            WaveSpawn { type_id: "raider", count: 2, interval_milli: 900 },
        ],
        seq![
            WaveSpawn { type_id: "armored", count: 2, interval_milli: 1600 },
            WaveSpawn { type_id: "climber", count: 3, interval_milli: 900 },
            WaveSpawn { type_id: "grunt", count: 4, interval_milli: 800 },
        ],
        seq![
            WaveSpawn { type_id: "raider", count: 4, interval_milli: 700 },
            WaveSpawn { type_id: "armored", count: 2, interval_milli: 1500 },
            WaveSpawn { type_id: "sieger", count: 1, interval_milli: 2000 },
        ],
    ]
}

/// The wave table, in order.
pub fn waves() -> (r: Vec<WaveDef>)
    ensures
        r@.map_values(|w: WaveDef| w@) == spec_waves(),
{
    let r = vec![
        WaveDef { spawns: vec![WaveSpawn { type_id: "grunt", count: 3, interval_milli: 1200 }] },
        WaveDef {
            spawns: vec![
                WaveSpawn { type_id: "grunt", count: 3, interval_milli: 1000 },
                WaveSpawn { type_id: "climber", count: 2, interval_milli: 1400 },
                WaveSpawn { type_id: "raider", count: 2, interval_milli: 900 },
            ],
        },
        WaveDef {
            spawns: vec![
                WaveSpawn { type_id: "armored", count: 2, interval_milli: 1600 },
                WaveSpawn { type_id: "climber", count: 3, interval_milli: 900 },
                WaveSpawn { type_id: "grunt", count: 4, interval_milli: 800 },
            ],
        },
        WaveDef {
            spawns: vec![
                WaveSpawn { type_id: "raider", count: 4, interval_milli: 700 },
                WaveSpawn { type_id: "armored", count: 2, interval_milli: 1500 },
                WaveSpawn { type_id: "sieger", count: 1, interval_milli: 2000 },
            ],
        },
    ];
    assert(r@.map_values(|w: WaveDef| w@) =~= spec_waves()) by {
        assert(r@[0]@ =~= spec_waves()[0]);
        assert(r@[1]@ =~= spec_waves()[1]);
        assert(r@[2]@ =~= spec_waves()[2]);
        assert(r@[3]@ =~= spec_waves()[3]);
    }
    r
}

/// How many waves a match has.
pub fn total_waves() -> (r: u32)
    ensures
        r == spec_waves().len(),
{
    let w = waves();
    assert(w@.len() == w@.map_values(|x: WaveDef| x@).len());
    w.len() as u32
}

} // verus!
