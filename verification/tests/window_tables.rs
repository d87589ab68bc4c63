use stft::variables::Q;
use stft::windows::{synth_window, window};
use stft::Sample;

#[derive(Clone, Copy, Debug, PartialEq)]
struct F(f32);

impl Sample for F {
    // The ghost-level operations mirror the executable ones; nothing calls
    // them at run time.
    fn sp_zero() -> F {
        F(0.0)
    }

    fn sp_plus(self, other: F) -> F {
        F(self.0 + other.0)
    }

    fn sp_times(self, other: F) -> F {
        F(self.0 * other.0)
    }

    fn sp_over(self, other: F) -> F {
        F(self.0 / other.0)
    }

    fn sp_is_positive(self) -> bool {
        self.0 > 0.0
    }

    fn sp_of_ratio(num: usize, den: usize) -> F {
        F(num as f32 / den as f32)
    }

    fn zero() -> F {
        F(0.0)
    }

    fn plus(self, other: F) -> F {
        F(self.0 + other.0)
    }

    fn times(self, other: F) -> F {
        F(self.0 * other.0)
    }

    fn over(self, other: F) -> F {
        F(self.0 / other.0)
    }

    fn is_positive(self) -> bool {
        self.0 > 0.0
    }

    fn of_ratio(num: usize, den: usize) -> F {
        F(num as f32 / den as f32)
    }
}

fn hann_shape(t: F) -> F {
    F(0.5 - 0.5 * (std::f32::consts::TAU * t.0).cos())
}

fn hamming_shape(t: F) -> F {
    F(0.54 - 0.46 * (std::f32::consts::TAU * t.0).cos())
}

#[test]
fn hamming_synth() {
    let q = Q::with_overlap(2, 1, 2);
    let ham: Vec<F> = window(q, hamming_shape);
    synth_window(&ham, q);
}

#[test]
fn hann_shape_bounds() {
    let q = Q::with_overlap(3, 1, 2);
    let table: Vec<F> = window(q, hann_shape);
    assert_eq!(table.len(), 8);
    // hann(0) == 0 exactly, hann(0.5) == 1 up to rounding.
    assert_eq!(table[0].0, 0.0);
    assert!((table[4].0 - 1.0).abs() < 1e-6);
    for w in &table {
        assert!(0.0 <= w.0 && w.0 <= 1.0 + 1e-6);
    }
}

#[test]
fn hamming_shape_bounds() {
    let q = Q::with_overlap(4, 1, 2);
    let table: Vec<F> = window(q, hamming_shape);
    assert_eq!(table.len(), 16);
    for w in &table {
        assert!(0.08 - 1e-6 <= w.0 && w.0 <= 1.0 + 1e-6);
    }
}

#[test]
fn synth_window_restores_constant_overlap_add() {
    // After the synthesis normalization, the overlapping products sum to
    // one for every slot class: each slot is divided by its own class's
    // summed squares, so the class sum collapses to 1 exactly, up to
    // floating-point rounding.
    let q = Q::with_overlap(6, 3, 4);
    let ws = q.window_size();
    let hop = q.hop_size();
    let analysis: Vec<F> = window(q, hamming_shape);
    let synth: Vec<F> = synth_window(&analysis, q);
    for t in 0..ws {
        let mut sum = 0.0f32;
        let mut j = t % hop;
        while j < ws {
            sum += synth[j].0 * analysis[j].0;
            j += hop;
        }
        assert!(
            (sum - 1.0).abs() < 1e-4,
            "slot {} sums to {} instead of 1",
            t,
            sum
        );
    }
}
