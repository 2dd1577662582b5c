//! The filters: transformations of a whole picture, applied to an image in
//! place. Some treat every pixel by itself; the others compute every pixel
//! from the neighbourhood that it had before the filter ran.

pub mod box_blur;
pub mod brightness;
pub mod color_inversion;
pub mod edge_detection;
pub mod emboss;
pub mod filter;
pub mod grayscale;
pub mod oil_painting;
pub mod sharpen;
pub mod threshold;
pub mod window;

pub use box_blur::{blur_of_one_is_identity, mean_of, BoxBlur};
pub use brightness::{brightened, raised, Brightness};
pub use color_inversion::{inversion_is_involution, ColorInversion};
pub use edge_detection::{
    edge_energies, energies, energy, energy_at, gradient_x, gradient_y, gradients_are_bounded,
    largest, largest_is_maximum, largest_of, sobel_x, sobel_x_weights, sobel_y, sobel_y_weights,
};
pub use emboss::{emboss_weights, Emboss};
pub use filter::{
    map_pixels, pointwise, repaint, repaint_from, snapshot, sweep, ImageFilter, PixelMap,
    Snapshot,
};
pub use grayscale::{gray_of, gray_of_gray, grayscale_is_idempotent, Grayscale};
pub use oil_painting::{
    leader, leader_is_first_mode, mode, most_frequent, occurrences, packed, OilPainting,
};
pub use sharpen::{sharpen_weights, Sharpen};
pub use threshold::{cut, threshold_leaves_black_and_white, Threshold};
pub use window::{
    clamp_coord, clamped, held, hold, neighbour, sweep_windows, tally, tally_step, weighted,
    weighted_is_bounded, window, window_pixels, windowed, Tally, WindowMap, MAX_WINDOW,
};
