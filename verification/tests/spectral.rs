use num_complex::Complex;
use rustfft::FftPlanner;

use stft::frame::Framing;
use stft::stft::{fft_size, mirror_spectrum};
use stft::variables::Q;
use stft::Sample;

#[derive(Clone, Copy, Debug, PartialEq)]
struct F(f32);

impl Sample for F {
    // The ghost-level operations mirror the executable ones; nothing calls
    // them at run time.
    fn sp_zero() -> F {
        F(0.0)
    }

    fn sp_plus(self, other: F) -> F {
        F(self.0 + other.0)
    }

    fn sp_times(self, other: F) -> F {
        F(self.0 * other.0)
    }

    fn sp_over(self, other: F) -> F {
        F(self.0 / other.0)
    }

    fn sp_is_positive(self) -> bool {
        self.0 > 0.0
    }

    fn sp_of_ratio(num: usize, den: usize) -> F {
        F(num as f32 / den as f32)
    }

    fn zero() -> F {
        F(0.0)
    }

    fn plus(self, other: F) -> F {
        F(self.0 + other.0)
    }

    fn times(self, other: F) -> F {
        F(self.0 * other.0)
    }

    fn over(self, other: F) -> F {
        F(self.0 / other.0)
    }

    fn is_positive(self) -> bool {
        self.0 > 0.0
    }

    fn of_ratio(num: usize, den: usize) -> F {
        F(num as f32 / den as f32)
    }
}

fn hann_shape(t: F) -> F {
    F(0.5 - 0.5 * (std::f32::consts::TAU * t.0).cos())
}

#[test]
fn fft_size_is_half_spectrum() {
    assert_eq!(fft_size(Q::with_overlap(3, 1, 2)), 5);
    assert_eq!(fft_size(Q::with_overlap(10, 3, 4)), 513);
}

#[test]
fn mirrored_bins_are_exact_conjugates() {
    let window_size = 8usize;
    let fft = window_size / 2 + 1;
    let mut spectrum: Vec<Complex<f32>> = (0..window_size)
        .map(|n| Complex::new(n as f32 + 0.25, 1.5 - n as f32))
        .collect();
    let kept = spectrum.clone();
    mirror_spectrum(&mut spectrum, fft, |c: Complex<f32>| c.conj());
    for j in 0..fft {
        assert_eq!(spectrum[j], kept[j]);
    }
    for k in 1..=(window_size / 2 - 1) {
        let a = spectrum[k];
        let b = spectrum[window_size - k];
        assert_eq!(a.re.to_bits(), b.re.to_bits());
        assert_eq!(a.im.to_bits(), (-b.im).to_bits());
    }
}

/// The full spectral cycle of the engine: forward transform, untouched
/// half-spectrum, conjugate mirroring, inverse transform, `1/N` rescale.
#[test]
fn basic() {
    let q = Q::with_overlap(10, 3, 4);
    let window_size = q.window_size();
    let fft = fft_size(q);
    let mut planner = FftPlanner::new();
    let forward = planner.plan_fft_forward(window_size);
    let backward = planner.plan_fft_inverse(window_size);
    let framing = Framing::with_window(q, hann_shape);

    for _ in 0..10 {
        let mut in_data: Vec<F> = vec![F(10.); 4098];
        let out_data: Vec<f32> = in_data.iter().map(|x| x.0).collect();
        framing.process(&mut in_data, |frame: Vec<F>| {
            let mut buffer: Vec<Complex<f32>> =
                frame.iter().map(|x| Complex::new(x.0, 0.0)).collect();
            forward.process(&mut buffer);
            // A no-op pass over the half-spectrum `buffer[0..fft]`.
            mirror_spectrum(&mut buffer, fft, |c: Complex<f32>| c.conj());
            backward.process(&mut buffer);
            buffer
                .iter()
                .map(|c| F(c.re / window_size as f32))
                .collect()
        });
        assert_eq!(
            in_data.iter().map(|x| x.0.round()).collect::<Vec<_>>(),
            out_data
        );
    }
}
