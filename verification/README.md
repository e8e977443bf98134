# satnogs-monitor

A terminal monitor for SatNOGS ground stations. It shows the current and future
jobs of the stations, the pass of the next satellite, a map, the spectrum of the
running observation and the log.

- `src/` is the verified library: the settings, the user interface as a state
  machine, the contents and places of the views, and the following of waterfall
  files.
- `app/` is the program: the terminal, threads, files, and the plots, which are
  drawn in floating point.
- `tests/` runs the library on concrete values.

Single precision numbers pass through the library as their bits. Measured values
are text, rounded by the program to the places that are shown.

The program takes the network's answers and the predicted tracks from the
directory that the api endpoint names (`file:///...`). In it, tab-separated
fields:

- `station-ID`: status, latitude, longitude, name
- `jobs-ID`: a line for each job of the station, the next one first: id, vessel,
  start and end in seconds since 1970, mode, frequency in MHz, rise azimuth,
  maximal altitude, set azimuth
- `track-JOB-ORBITS`: a line `sat` with orbit number, latitude, longitude,
  altitude, velocity, range, range rate, azimuth, elevation; lines `ground`,
  `polar` and `footprint` with the points of the tracks
