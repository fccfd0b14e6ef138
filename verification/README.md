# dpc_exporter

A Prometheus exporter for the radar products of the Dipartimento della
Protezione Civile (DPC), with its decision logic verified by Verus.

- `src/` is the verified library: the product codes, the choice of the
  latest sample time, the crop of radar cells around the monitored point,
  its center reading and its area reading (the maximum over the cells within
  the monitored radius; samples are kept as `f32` bit patterns and ordered by
  the IEEE 754 rules), when the cached frame is served and when a new one
  is fetched, and the Prometheus text of a scrape.
- `app/` is the program around it: the command line, the HTTP server, the
  requests to the DPC API, GeoTIFF decoding, map projection and the decimal
  writing of `f32` readings.
- `tests/` runs the library on concrete values.

Radar data © Dipartimento della Protezione Civile (Radar-DPC), distributed
under CC-BY-SA 4.0.
