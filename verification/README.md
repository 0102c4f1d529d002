# rust_radio

Telemetry decoding for GPS receivers, verified with Verus.

`src/` is the verified library:

- `utils::bools_to_int` reads big-endian bit fields as unsigned or two's complement integers.
- `gnss::telemetry_decode::gps` finds the L1 C/A preamble, checks the parity of the ten words
  of each subframe, recovers the 240 data bits and decodes them (`l1_ca_subframe`).
- `gnss::gps_l1_ca::telemetry_decode::subframe` decodes subframes 1 to 5 into their
  transmitted integer fields; `gnss::gps_l1_ca::channel` collects ephemeris and ionosphere
  parameters; `channel::track_and_tlm` makes a channel's decisions on each sample and on
  each event of its tracking loop (acquisition, pull-in, loss of lock, decoding the bits),
  and `channel::ReportingChannel` those of a channel that reports subframes and says when
  an observation is due.
- `gnss::gps_l2c` generates the CM and CL spreading codes and frames, checks (CRC-24Q),
  error-corrects and decodes CNAV messages.
- `types` holds strided even/odd views of slices; `io` hands out buffered samples in order.

Every decoded field is held as the integer the signal transmits; `app/` scales fields to
physical units and holds the floating-point parts of the receiver (orbits, position
solution, ionosphere model, lock detectors, FFT acquisition, the tracking loop) and
the reading of samples.
