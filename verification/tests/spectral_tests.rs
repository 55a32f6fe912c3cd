use ats_bot::spectral::{bin_band, freq_to_bin, BinBand};

#[test]
fn bins_of_frequencies() {
    assert_eq!(freq_to_bin(300, 512, 16000), 9);
    assert_eq!(freq_to_bin(3400, 512, 16000), 108);
    assert_eq!(freq_to_bin(0, 512, 16000), 0);
    assert_eq!(freq_to_bin(8000, 512, 16000), 256);
}

#[test]
fn bands_of_bins() {
    assert_eq!(bin_band(3, 5, 9, 108), BinBand::Low);
    assert_eq!(bin_band(5, 5, 9, 108), BinBand::Ignored);
    assert_eq!(bin_band(9, 5, 9, 108), BinBand::Speech);
    assert_eq!(bin_band(108, 5, 9, 108), BinBand::Speech);
    assert_eq!(bin_band(109, 5, 9, 108), BinBand::Ignored);
    assert_eq!(bin_band(2, 5, 0, 10), BinBand::Low);
}
